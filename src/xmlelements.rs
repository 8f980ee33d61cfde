use vstd::prelude::*;

use crate::text::opt_view;

verus! {

/// An attribute of an element.
#[derive(Debug)]
pub struct Attribute {
    pub name: String,
    pub value: String,
}

impl Clone for Attribute {
    fn clone(&self) -> (r: Self)
        ensures
            r == *self,
    {
        Attribute { name: self.name.clone(), value: self.value.clone() }
    }
}

fn clone_attributes(v: &Vec<Attribute>) -> (r: Vec<Attribute>)
    ensures
        r@ == v@,
{
    let mut out: Vec<Attribute> = Vec::new();
    let mut i: usize = 0;
    while i < v.len()
        invariant
            i <= v@.len(),
            out@ == v@.take(i as int),
        decreases v@.len() - i,
    {
        out.push(v[i].clone());
        i += 1;
        assert(out@ =~= v@.take(i as int));
    }
    assert(v@.take(v@.len() as int) =~= v@);
    out
}

/// One event of a document read front to back.
#[derive(Debug)]
pub enum XmlEvent {
    StartElement { name: String, attributes: Vec<Attribute> },
    EndElement { name: String },
    Characters(String),
    /// Anything the lookups here do not look at.
    Other,
}

/// What an event says: element and attribute names and values as text.
pub enum EventView {
    Start(Seq<char>, Seq<Attribute>),
    End(Seq<char>),
    Text(Seq<char>),
    Other,
}

impl View for XmlEvent {
    type V = EventView;

    open spec fn view(&self) -> EventView {
        match self {
            XmlEvent::StartElement { name, attributes } => EventView::Start(name@, attributes@),
            XmlEvent::EndElement { name } => EventView::End(name@),
            XmlEvent::Characters(s) => EventView::Text(s@),
            XmlEvent::Other => EventView::Other,
        }
    }
}

/// The name of a start event; empty for any other event.
pub open spec fn element_name(e: EventView) -> Seq<char> {
    match e {
        EventView::Start(n, _) => n,
        _ => Seq::empty(),
    }
}

/// The indices in `[lo, hi)` of the events that open an element `name`, in
/// order.
pub open spec fn starts_in(es: Seq<EventView>, lo: int, hi: int, name: Seq<char>) -> Seq<usize>
    decreases hi - lo,
{
    if hi <= lo {
        Seq::empty()
    } else if is_start_named(es[hi - 1], name) {
        starts_in(es, lo, hi - 1, name).push((hi - 1) as usize)
    } else {
        starts_in(es, lo, hi - 1, name)
    }
}

/// The index of the first event from `k` on that closes an element `name`,
/// or the length of `es` if none does.
pub open spec fn end_from(es: Seq<EventView>, k: int, name: Seq<char>) -> int
    decreases es.len() - k,
{
    if k < 0 || k >= es.len() {
        es.len() as int
    } else if is_end_named(es[k], name) {
        k
    } else {
        end_from(es, k + 1, name)
    }
}

/// The events of `es` at `indices`, in that order.
pub open spec fn picked(es: Seq<EventView>, indices: Seq<usize>) -> Seq<EventView> {
    indices.map_values(|i: usize| es[i as int])
}

/// The views of a run of events.
pub open spec fn views(es: Seq<XmlEvent>) -> Seq<EventView> {
    es.map_values(|e: XmlEvent| e@)
}

impl Clone for XmlEvent {
    fn clone(&self) -> (r: Self)
        ensures
            r@ == self@,
    {
        match self {
            XmlEvent::StartElement { name, attributes } => XmlEvent::StartElement {
                name: name.clone(),
                attributes: clone_attributes(attributes),
            },
            XmlEvent::EndElement { name } => XmlEvent::EndElement { name: name.clone() },
            XmlEvent::Characters(s) => XmlEvent::Characters(s.clone()),
            XmlEvent::Other => XmlEvent::Other,
        }
    }
}

/// Whether `e` opens an element called `name`.
pub open spec fn is_start_named(e: EventView, name: Seq<char>) -> bool {
    e matches EventView::Start(n, _) && n == name
}

/// Whether `e` closes an element called `name`.
pub open spec fn is_end_named(e: EventView, name: Seq<char>) -> bool {
    e matches EventView::End(n) && n == name
}

/// The value of the first attribute called `name`.
pub open spec fn attr_value(attrs: Seq<Attribute>, name: Seq<char>) -> Option<Seq<char>>
    decreases attrs.len(),
{
    if attrs.len() == 0 {
        None
    } else if attrs[0].name@ == name {
        Some(attrs[0].value@)
    } else {
        attr_value(attrs.drop_first(), name)
    }
}

/// The value of attribute `name` of a start event.
pub open spec fn event_attr(e: EventView, name: Seq<char>) -> Option<Seq<char>> {
    match e {
        EventView::Start(_, attributes) => attr_value(attributes, name),
        _ => None,
    }
}

/// The text of property `name` among `es`: the `value` attribute of the
/// first element with an attribute valued `name`.
pub open spec fn property_text(es: Seq<EventView>, name: Seq<char>) -> Option<Seq<char>> {
    if exists|i: int| first_valued(es, i, name) {
        event_attr(es[choose|i: int| first_valued(es, i, name)], "value"@)
    } else {
        None
    }
}

/// Attribute `attribute` of the first element called `element`.
pub open spec fn element_attr_text(es: Seq<EventView>, element: Seq<char>, attribute: Seq<char>) -> Option<Seq<char>> {
    if exists|i: int| first_named(es, i, element) {
        event_attr(es[choose|i: int| first_named(es, i, element)], attribute)
    } else {
        None
    }
}

/// Whether some attribute has the value `v`.
pub open spec fn attrs_have_value(attrs: Seq<Attribute>, v: Seq<char>) -> bool {
    exists|i: int| 0 <= i < attrs.len() && (#[trigger] attrs[i]).value@ == v
}

/// Whether some attribute of `e` has the value `v`.
pub open spec fn has_attr_value(e: EventView, v: Seq<char>) -> bool {
    match e {
        EventView::Start(_, attributes) => attrs_have_value(attributes, v),
        _ => false,
    }
}

/// Whether `i` is the first index in `s` that opens an element `name`.
pub open spec fn first_named(s: Seq<EventView>, i: int, name: Seq<char>) -> bool {
    &&& 0 <= i < s.len()
    &&& is_start_named(s[i], name)
    &&& forall|j: int| 0 <= j < i ==> !is_start_named(#[trigger] s[j], name)
}

/// Whether `i` is the first index in `s` with an attribute valued `v`.
pub open spec fn first_valued(s: Seq<EventView>, i: int, v: Seq<char>) -> bool {
    &&& 0 <= i < s.len()
    &&& has_attr_value(s[i], v)
    &&& forall|j: int| 0 <= j < i ==> !has_attr_value(#[trigger] s[j], v)
}

fn attribute_of(attributes: &Vec<Attribute>, name: &String) -> (r: Option<String>)
    ensures
        r matches Some(v) ==> attr_value(attributes@, name@) == Some(v@),
        r is None ==> attr_value(attributes@, name@) is None,
{
    let mut k: usize = 0;
    assert(attributes@.subrange(0, attributes@.len() as int) =~= attributes@);
    while k < attributes.len()
        invariant
            k <= attributes@.len(),
            attr_value(attributes@, name@) == attr_value(
                attributes@.subrange(k as int, attributes@.len() as int),
                name@,
            ),
        decreases attributes@.len() - k,
    {
        let ghost rest = attributes@.subrange(k as int, attributes@.len() as int);
        assert(rest.drop_first() =~= attributes@.subrange(k + 1, attributes@.len() as int));
        if attributes[k].name == *name {
            return Some(attributes[k].value.clone());
        }
        k += 1;
    }
    None
}

fn starts_named(e: &XmlEvent, name: &String) -> (r: bool)
    ensures
        r == is_start_named(e@, name@),
{
    match e {
        XmlEvent::StartElement { name: n, .. } => *n == *name,
        _ => false,
    }
}

fn ends_named(e: &XmlEvent, name: &String) -> (r: bool)
    ensures
        r == is_end_named(e@, name@),
{
    match e {
        XmlEvent::EndElement { name: n } => *n == *name,
        _ => false,
    }
}

fn any_value(attributes: &Vec<Attribute>, v: &String) -> (r: bool)
    ensures
        r == attrs_have_value(attributes@, v@),
{
    let mut k: usize = 0;
    while k < attributes.len()
        invariant
            k <= attributes@.len(),
            forall|j: int| 0 <= j < k ==> (#[trigger] attributes@[j]).value@ != v@,
        decreases attributes@.len() - k,
    {
        if attributes[k].value == *v {
            assert(attributes@[k as int].value@ == v@);
            return true;
        }
        k += 1;
    }
    false
}

fn has_value(e: &XmlEvent, v: &String) -> (r: bool)
    ensures
        r == has_attr_value(e@, v@),
{
    match e {
        XmlEvent::StartElement { attributes, .. } => any_value(attributes, v),
        _ => false,
    }
}

/// The value of attribute `name` of a start event, if it has one.
pub fn attribute(e: &XmlEvent, name: &String) -> (r: Option<String>)
    ensures
        r matches Some(v) ==> event_attr(e@, name@) == Some(v@),
        r is None ==> event_attr(e@, name@) is None,
{
    match e {
        XmlEvent::StartElement { attributes, .. } => attribute_of(attributes, name),
        _ => None,
    }
}

/// The events of a document, with lookups by element and attribute name.
#[derive(Debug)]
pub struct XMLElements {
    pub events: Vec<XmlEvent>,
}

impl XMLElements {
    /// Copies of the events at `indices`, in that order.
    pub fn pick(&self, indices: &Vec<usize>) -> (r: Vec<XmlEvent>)
        requires
            forall|j: int| 0 <= j < indices@.len() ==> #[trigger] indices@[j] < self.events@.len(),
        ensures
            views(r@) == picked(views(self.events@), indices@),
    {
        let mut out: Vec<XmlEvent> = Vec::new();
        let mut k: usize = 0;
        while k < indices.len()
            invariant
                k <= indices@.len(),
                forall|j: int| 0 <= j < indices@.len() ==> #[trigger] indices@[j] < self.events@.len(),
                out@.len() == k,
                views(out@) == picked(views(self.events@), indices@.take(k as int)),
            decreases indices@.len() - k,
        {
            let e = self.events[indices[k]].clone();
            let ghost before = out@;
            out.push(e);
            k += 1;
            assert(views(out@) =~= picked(views(self.events@), indices@.take(k as int))) by {
                assert(views(before) =~= picked(views(self.events@), indices@.take(k - 1)));
                assert forall|j: int| 0 <= j < k implies views(out@)[j] == picked(
                    views(self.events@),
                    indices@.take(k as int),
                )[j] by {
                    if j < k - 1 {
                        assert(out@[j] == before[j]);
                        assert(views(before)[j] == picked(views(self.events@), indices@.take(k - 1))[j]);
                    }
                }
            }
        }
        assert(indices@.take(indices@.len() as int) =~= indices@);
        out
    }

    pub fn new(events: Vec<XmlEvent>) -> (r: XMLElements)
        ensures
            r.events@ == events@,
    {
        XMLElements { events }
    }

    /// The index of the first element called `element_name`.
    pub fn get_element(&self, element_name: &str) -> (r: Option<usize>)
        ensures
            r matches Some(i) ==> first_named(views(self.events@), i as int, element_name@),
            r is None ==> forall|j: int|
                0 <= j < self.events@.len() ==> !is_start_named(#[trigger] self.events@[j]@,
                    element_name@,
                ),
    {
        let name = element_name.to_owned();
        let mut i: usize = 0;
        while i < self.events.len()
            invariant
                i <= self.events@.len(),
                name@ == element_name@,
                forall|j: int| 0 <= j < i ==> !is_start_named(#[trigger] self.events@[j]@, element_name@),
            decreases self.events@.len() - i,
        {
            if starts_named(&self.events[i], &name) {
                return Some(i);
            }
            i += 1;
        }
        None
    }

    /// The indices of the elements called `children_name` from the element
    /// at `start` up to the first end of an element of the same name as it.
    pub fn get_children(&self, start: usize, children_name: &str) -> (r: Vec<usize>)
        requires
            start < self.events@.len(),
        ensures
            r@ == starts_in(
                views(self.events@),
                start as int,
                end_from(views(self.events@), start as int, element_name(self.events@[start as int]@)),
                children_name@,
            ),
            forall|j: int| 0 <= j < r@.len() ==> start <= #[trigger] r@[j] < self.events@.len(),
    {
        let ghost vs = views(self.events@);
        let child = children_name.to_owned();
        let name: String = match &self.events[start] {
            XmlEvent::StartElement { name, .. } => name.clone(),
            _ => String::new(),
        };
        assert(name@ == element_name(vs[start as int]));
        let mut out: Vec<usize> = Vec::new();
        let mut i: usize = start;
        let mut ended = false;
        while i < self.events.len() && !ended
            invariant
                vs == views(self.events@),
                start <= i <= self.events@.len(),
                child@ == children_name@,
                out@ == starts_in(vs, start as int, i as int, children_name@),
                forall|j: int| 0 <= j < out@.len() ==> start <= #[trigger] out@[j] < i,
                end_from(vs, start as int, name@) == if ended {
                    i as int
                } else {
                    end_from(vs, i as int, name@)
                },
            decreases self.events@.len() - i + if ended { 0int } else { 1int },
        {
            assert(vs[i as int] == self.events@[i as int]@);
            if ends_named(&self.events[i], &name) {
                ended = true;
            } else {
                if starts_named(&self.events[i], &child) {
                    out.push(i);
                }
                i += 1;
            }
        }
        out
    }

    /// The indices of all elements called `element_name`, in order.
    pub fn get_elements(&self, element_name: &str) -> (r: Vec<usize>)
        ensures
            r@ == starts_in(views(self.events@), 0, self.events@.len() as int, element_name@),
            forall|j: int| 0 <= j < r@.len() ==> #[trigger] r@[j] < self.events@.len(),
    {
        let ghost vs = views(self.events@);
        let name = element_name.to_owned();
        let mut out: Vec<usize> = Vec::new();
        let mut i: usize = 0;
        while i < self.events.len()
            invariant
                vs == views(self.events@),
                i <= self.events@.len(),
                name@ == element_name@,
                out@ == starts_in(vs, 0, i as int, element_name@),
                forall|j: int| 0 <= j < out@.len() ==> #[trigger] out@[j] < i,
            decreases self.events@.len() - i,
        {
            assert(vs[i as int] == self.events@[i as int]@);
            if starts_named(&self.events[i], &name) {
                out.push(i);
            }
            i += 1;
        }
        out
    }

    /// Attribute `attribute_name` of the first element called
    /// `element_name`.
    pub fn get_element_attribute(&self, element_name: &str, attribute_name: &str) -> (r: Option<
        String,
    >)
        ensures
            opt_view(r) == element_attr_text(views(self.events@), element_name@, attribute_name@),
    {
        match self.get_element(element_name) {
            Some(i) => {
                let r = XMLElements::get_attribute(&self.events[i], attribute_name);
                let ghost k = choose|k: int| first_named(views(self.events@), k, element_name@);
                assert(k == i) by {
                    if k < i {
                        assert(!is_start_named(self.events@[k]@, element_name@));
                    }
                    if k > i {
                        assert(!is_start_named(self.events@[i as int]@, element_name@));
                    }
                }
                r
            },
            None => {
                assert(!exists|k: int| first_named(views(self.events@), k, element_name@));
                None
            },
        }
    }

    /// Attribute `attribute_name` of a start event.
    pub fn get_attribute(element: &XmlEvent, attribute_name: &str) -> (r: Option<String>)
        ensures
            r matches Some(v) ==> event_attr(element@, attribute_name@) == Some(v@),
            r is None ==> event_attr(element@, attribute_name@) is None,
    {
        let name = attribute_name.to_owned();
        attribute(element, &name)
    }

    /// The `value` attribute of the first element among `elements` that has
    /// an attribute whose value is `attribute_name`: how a property named
    /// `attribute_name` is written.
    pub fn get_attribute_value(elements: &Vec<XmlEvent>, attribute_name: &str) -> (r: Option<String>)
        ensures
            opt_view(r) == property_text(views(elements@), attribute_name@),
    {
        let wanted = attribute_name.to_owned();
        let mut i: usize = 0;
        while i < elements.len()
            invariant
                i <= elements@.len(),
                wanted@ == attribute_name@,
                forall|j: int| 0 <= j < i ==> !has_attr_value(#[trigger] elements@[j]@, attribute_name@),
            decreases elements@.len() - i,
        {
            if has_value(&elements[i], &wanted) {
                proof {
                    reveal_strlit("value");
                }
                let key = "value".to_owned();
                let r = attribute(&elements[i], &key);
                assert(first_valued(views(elements@), i as int, attribute_name@));
                let ghost k = choose|k: int| first_valued(views(elements@), k, attribute_name@);
                assert(k == i) by {
                    if k < i {
                        assert(!has_attr_value(elements@[k]@, attribute_name@));
                    }
                    if k > i {
                        assert(!has_attr_value(elements@[i as int]@, attribute_name@));
                    }
                }
                return r;
            }
            i += 1;
        }
        assert(!exists|k: int| first_valued(views(elements@), k, attribute_name@));
        None
    }
}

} // verus!
