use std::collections::HashMap;
use vstd::prelude::*;

verus! {

broadcast use vstd::std_specs::hash::group_hash_axioms;

/// One node of a dialog: its text and its responses, each naming the node
/// it leads to.
#[derive(Debug)]
pub struct Dialog {
    pub text: String,
    pub responses: Vec<(usize, String)>,
}

impl Dialog {
    pub fn new(text: String, responses: Vec<(usize, String)>) -> (r: Dialog)
        ensures
            r == (Dialog { text, responses }),
    {
        Dialog { text, responses }
    }
}

/// Content errors of a dialog tree.
#[derive(Clone, Copy, Debug, PartialEq, Eq, Structural)]
pub enum DialogError {
    /// The tree has no node 0 to start from.
    MissingRoot,
}

/// Dialog nodes by id; node 0 is where a conversation starts.
#[derive(Debug)]
pub struct DialogTree {
    dialogs: HashMap<usize, Dialog>,
}

impl Clone for Dialog {
    fn clone(&self) -> (r: Self)
        ensures
            r.text == self.text,
            r.responses@ == self.responses@,
    {
        let mut responses: Vec<(usize, String)> = Vec::new();
        let mut i: usize = 0;
        while i < self.responses.len()
            invariant
                i <= self.responses@.len(),
                responses@ == self.responses@.take(i as int),
            decreases self.responses@.len() - i,
        {
            let (target, label) = &self.responses[i];
            responses.push((*target, label.clone()));
            i += 1;
            assert(responses@ =~= self.responses@.take(i as int));
        }
        assert(self.responses@.take(self.responses@.len() as int) =~= self.responses@);
        Dialog { text: self.text.clone(), responses }
    }
}

impl Clone for DialogTree {
    fn clone(&self) -> (r: Self)
        ensures
            r@ == self@,
    {
        DialogTree { dialogs: self.dialogs.clone() }
    }
}

impl View for DialogTree {
    type V = Map<usize, Dialog>;

    closed spec fn view(&self) -> Map<usize, Dialog> {
        self.dialogs@
    }
}

impl DialogTree {
    /// A tree of the given nodes, which must hold a root, node 0.
    pub fn new(dialogs: HashMap<usize, Dialog>) -> (r: Result<DialogTree, DialogError>)
        ensures
            dialogs@.contains_key(0) ==> (r matches Ok(t) && t@ == dialogs@),
            !dialogs@.contains_key(0) ==> r == Err::<DialogTree, DialogError>(
                DialogError::MissingRoot,
            ),
    {
        if dialogs.contains_key(&0) {
            Ok(DialogTree { dialogs })
        } else {
            Err(DialogError::MissingRoot)
        }
    }

    /// The node with id `id`, if there is one.
    pub fn get(&self, id: usize) -> (r: Option<&Dialog>)
        ensures
            self@.contains_key(id) ==> r == Some(&self@[id]),
            !self@.contains_key(id) ==> r is None,
    {
        self.dialogs.get(&id)
    }
}

/// What a dialog box shows: the tree, the node and the selected response.
pub struct CursorView {
    pub tree: Map<usize, Dialog>,
    pub node: usize,
    pub selected: usize,
}

/// The number of responses of the node on show.
pub open spec fn response_count(c: CursorView) -> int {
    c.tree[c.node].responses@.len() as int
}

/// The next response, wrapping round to the first; 0 when there is none.
pub open spec fn next_index(selected: int, count: int) -> int {
    if selected + 1 < count {
        selected + 1
    } else {
        0
    }
}

/// The previous response, wrapping round to the last; 0 when there is none.
pub open spec fn prev_index(selected: int, count: int) -> int {
    if selected == 0 {
        if count > 0 {
            count - 1
        } else {
            0
        }
    } else {
        selected - 1
    }
}

/// The cursor with the next response selected.
pub open spec fn next_cursor(c: CursorView) -> CursorView {
    CursorView { selected: next_index(c.selected as int, response_count(c)) as usize, ..c }
}

/// Following the selected response: to the node it names, if the tree has
/// it, with the first response selected; otherwise nowhere.
pub open spec fn choose_spec(c: CursorView) -> CursorView {
    let d = c.tree[c.node];
    if c.selected < d.responses@.len() && c.tree.contains_key(d.responses@[c.selected as int].0) {
        CursorView { node: d.responses@[c.selected as int].0, selected: 0, ..c }
    } else {
        c
    }
}

/// An open conversation: the node on show exists and the selection lies
/// among its responses (or is 0 when it has none).
pub open spec fn cursor_wf(c: CursorView) -> bool {
    &&& c.tree.contains_key(c.node)
    &&& (c.selected < response_count(c) || c.selected == 0)
}

/// The dialog on screen, if a conversation is open.
pub struct DialogBox {
    display: Option<(DialogTree, usize, usize)>,
}

impl View for DialogBox {
    type V = Option<CursorView>;

    closed spec fn view(&self) -> Option<CursorView> {
        match self.display {
            Some((t, node, selected)) => Some(CursorView { tree: t@, node, selected }),
            None => None,
        }
    }
}

impl DialogBox {
    pub open spec fn wf(&self) -> bool {
        self@ matches Some(c) ==> cursor_wf(c)
    }

    /// A closed dialog box.
    pub fn new() -> (r: DialogBox)
        ensures
            r@ is None,
            r.wf(),
    {
        DialogBox { display: None }
    }

    pub fn is_visible(&self) -> (r: bool)
        ensures
            r == self@ is Some,
    {
        self.display.is_some()
    }

    /// Opens `dialogtree` at its root with the first response selected,
    /// or closes the box when there is none.
    pub fn populate_display(&mut self, dialogtree: Option<DialogTree>)
        requires
            dialogtree matches Some(t) ==> t@.contains_key(0),
        ensures
            final(self).wf(),
            match dialogtree {
                Some(t) => final(self)@ == Some(CursorView { tree: t@, node: 0, selected: 0 }),
                None => final(self)@ is None,
            },
    {
        match dialogtree {
            Some(t) => {
                self.display = Some((t, 0, 0));
            },
            None => {
                self.display = None;
            },
        }
    }

    /// The box has nothing to do between key presses.
    pub fn update(&mut self)
        ensures
            final(self)@ == old(self)@,
    {
    }

    /// Closes the box.
    pub fn clear(&mut self)
        ensures
            final(self)@ is None,
            final(self).wf(),
    {
        self.display = None;
    }

    /// The node on show, if the box is open.
    pub fn dialog(&self) -> (r: Option<&Dialog>)
        requires
            self.wf(),
        ensures
            match self@ {
                Some(c) => r == Some(&c.tree[c.node]),
                None => r is None,
            },
    {
        match &self.display {
            Some((t, node, _)) => t.get(*node),
            None => None,
        }
    }

    /// The selected response, if the box is open.
    pub fn selected_response(&self) -> (r: Option<usize>)
        ensures
            match self@ {
                Some(c) => r == Some(c.selected),
                None => r is None,
            },
    {
        match &self.display {
            Some((_, _, selected)) => Some(*selected),
            None => None,
        }
    }

    /// Follows the selected response to the node it names, if the tree has
    /// it, selecting that node's first response; otherwise nothing changes.
    pub fn choose_reponse(&mut self)
        requires
            old(self).wf(),
        ensures
            final(self).wf(),
            match old(self)@ {
                Some(c) => final(self)@ == Some(choose_spec(c)),
                None => final(self)@ is None,
            },
    {
        let ghost before = self@;
        if let Some((t, node, selected)) = &mut self.display {
            let target: Option<usize> = match t.get(*node) {
                Some(d) => if *selected < d.responses.len() {
                    Some(d.responses[*selected].0)
                } else {
                    None
                },
                None => None,
            };
            if let Some(next) = target {
                if t.get(next).is_some() {
                    *node = next;
                    *selected = 0;
                }
            }
        }
        proof {
            if let Some(c) = before {
                assert(self@ == Some(choose_spec(c)));
            }
        }
    }

    /// Selects the next response, wrapping round to the first.
    pub fn next_response(&mut self)
        requires
            old(self).wf(),
        ensures
            final(self).wf(),
            match old(self)@ {
                Some(c) => final(self)@ == Some(next_cursor(c)),
                None => final(self)@ is None,
            },
    {
        if let Some((t, node, selected)) = &mut self.display {
            let count: usize = match t.get(*node) {
                Some(d) => d.responses.len(),
                None => 0,
            };
            if *selected + 1 < count {
                *selected = *selected + 1;
            } else {
                *selected = 0;
            }
        }
    }

    /// Selects the previous response, wrapping round to the last.
    pub fn prev_response(&mut self)
        requires
            old(self).wf(),
        ensures
            final(self).wf(),
            match old(self)@ {
                Some(c) => final(self)@ == Some(
                    CursorView { selected: prev_index(c.selected as int, response_count(c)) as usize, ..c },
                ),
                None => final(self)@ is None,
            },
    {
        if let Some((t, node, selected)) = &mut self.display {
            let count: usize = match t.get(*node) {
                Some(d) => d.responses.len(),
                None => 0,
            };
            if *selected == 0 {
                *selected = if count > 0 { count - 1 } else { 0 };
            } else {
                *selected = *selected - 1;
            }
        }
    }
}

/// The selection after `k` moves to the next response.
pub open spec fn next_times(selected: int, count: int, k: nat) -> int
    decreases k,
{
    if k == 0 {
        selected
    } else {
        next_index(next_times(selected, count, (k - 1) as nat), count)
    }
}

pub proof fn lemma_next_times(selected: int, count: int, k: nat)
    requires
        0 <= selected < count,
    ensures
        next_times(selected, count, k) == (selected + k) % count,
    decreases k,
{
    if k == 0 {
        vstd::arithmetic::div_mod::lemma_small_mod(selected as nat, count as nat);
    } else {
        lemma_next_times(selected, count, (k - 1) as nat);
        let p = (selected + k - 1) % count;
        vstd::arithmetic::div_mod::lemma_mod_bound(selected + k - 1, count);
        vstd::arithmetic::div_mod::lemma_add_mod_noop(selected + k - 1, 1, count);
        vstd::arithmetic::div_mod::lemma_mod_twice(selected + k - 1, count);
        if count == 1 {
            vstd::arithmetic::div_mod::lemma_mod_self_0(1);
        } else {
            vstd::arithmetic::div_mod::lemma_small_mod(1, count as nat);
        }
        if p + 1 < count {
            vstd::arithmetic::div_mod::lemma_small_mod((p + 1) as nat, count as nat);
        } else {
            vstd::arithmetic::div_mod::lemma_mod_self_0(count);
        }
    }
}

/// Moving to the next response as many times as there are responses comes
/// back to the response selected at the start.
pub proof fn lemma_next_response_wraps(c: CursorView)
    requires
        cursor_wf(c),
    ensures
        next_times(c.selected as int, response_count(c), response_count(c) as nat) == c.selected,
{
    let n = response_count(c);
    if n > 0 {
        lemma_next_times(c.selected as int, n, n as nat);
        vstd::arithmetic::div_mod::lemma_mod_multiples_vanish(1, c.selected as int, n);
        assert(n * 1 + c.selected == c.selected + n);
        vstd::arithmetic::div_mod::lemma_small_mod(c.selected as nat, n as nat);
    }
}

proof fn lemma_next_cursor_upto(cs: Seq<CursorView>, k: int)
    requires
        cursor_wf(cs[0]),
        response_count(cs[0]) > 0,
        0 <= k < cs.len(),
        forall|q: int| 0 <= q < cs.len() - 1 ==> cs[q + 1] == next_cursor(#[trigger] cs[q]),
    ensures
        cs[k] == (CursorView {
            selected: next_times(cs[0].selected as int, response_count(cs[0]), k as nat) as usize,
            ..cs[0]
        }),
    decreases k,
{
    let n = response_count(cs[0]);
    if k == 0 {
        assert(cs[0] == (CursorView { selected: cs[0].selected, ..cs[0] }));
    } else {
        lemma_next_cursor_upto(cs, k - 1);
        lemma_next_times(cs[0].selected as int, n, (k - 1) as nat);
        vstd::arithmetic::div_mod::lemma_mod_bound(cs[0].selected + k - 1, n);
        let s0 = cs[0].selected as int;
        let prev = next_times(s0, n, (k - 1) as nat);
        assert(cs[0].tree[cs[0].node].responses.len() == n);
        assert(0 <= prev < n);
        assert(cs[k - 1].selected as int == prev);
        assert(response_count(cs[k - 1]) == n);
        assert(next_times(s0, n, k as nat) == next_index(prev, n));
        assert(cs[k] == next_cursor(cs[k - 1]));
        assert(0 <= next_index(prev, n) < n);
    }
}

/// Moving to the next response through `DialogBox::next_response` as many
/// times as the node has responses comes back to the response selected at
/// the start: `cs` are the successive cursors.
pub proof fn lemma_next_response_calls_wrap(cs: Seq<CursorView>)
    requires
        cursor_wf(cs[0]),
        cs.len() == response_count(cs[0]) + 1,
        forall|q: int| 0 <= q < cs.len() - 1 ==> cs[q + 1] == next_cursor(#[trigger] cs[q]),
    ensures
        cs[cs.len() - 1] == cs[0],
{
    let n = response_count(cs[0]);
    if n > 0 {
        lemma_next_cursor_upto(cs, n);
        lemma_next_response_wraps(cs[0]);
    }
}

} // verus!

