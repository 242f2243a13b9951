//! Decisions of the machine manager that do not touch a backend: how an
//! input event becomes a backend call, and the per-machine NIC index counter.

use vstd::prelude::*;
use crate::virtio::input::VmInputKind;
use crate::text::str_eq;

verus! {

/// One call on a hypervisor backend for an input event.
#[derive(Clone, Copy, Debug)]
pub enum BackendInput {
    /// `send_key(keysym, pressed)`.
    Key { keysym: u32, pressed: bool },
    /// `send_mouse(x, y, cmd)`.
    Mouse { x: i32, y: i32, cmd: u8 },
}

/// The backend call for an input event. Pointer commands: 0 moves with the
/// buttons held; 0x80 or 0x40 with the button's bit presses or releases it;
/// 0x08 is a wheel step by (dx, dy).
pub open spec fn backend_input_spec(kind: VmInputKind) -> BackendInput {
    match kind {
        VmInputKind::KeyDown(k) => BackendInput::Key { keysym: k, pressed: true },
        VmInputKind::KeyUp(k) => BackendInput::Key { keysym: k, pressed: false },
        VmInputKind::MouseMove(x, y) => BackendInput::Mouse { x, y, cmd: 0 },
        VmInputKind::MouseButton { x, y, button, pressed } => BackendInput::Mouse {
            x,
            y,
            cmd: if pressed {
                0x80u8 | (1u8 << button)
            } else {
                0x40u8 | (1u8 << button)
            },
        },
        VmInputKind::MouseWheel { dx, dy } => BackendInput::Mouse { x: dx, y: dy, cmd: 0x08 },
    }
}

/// The backend call for an input event (a button number must name one of
/// the eight bits of the mask).
pub fn backend_input(kind: VmInputKind) -> (r: BackendInput)
    requires
        kind matches VmInputKind::MouseButton { button, .. } ==> button < 8,
    ensures
        r == backend_input_spec(kind),
{
    match kind {
        VmInputKind::KeyDown(k) => BackendInput::Key { keysym: k, pressed: true },
        VmInputKind::KeyUp(k) => BackendInput::Key { keysym: k, pressed: false },
        VmInputKind::MouseMove(x, y) => BackendInput::Mouse { x, y, cmd: 0 },
        VmInputKind::MouseButton { x, y, button, pressed } => {
            let cmd = if pressed {
                0x80u8 | (1u8 << button)
            } else {
                0x40u8 | (1u8 << button)
            };
            BackendInput::Mouse { x, y, cmd }
        },
        VmInputKind::MouseWheel { dx, dy } => BackendInput::Mouse { x: dx, y: dy, cmd: 0x08 },
    }
}

/// The counter of a key in a table of (key, counter) pairs: the first pair
/// with that key.
pub open spec fn table_get(s: Seq<(Seq<char>, u8)>, k: Seq<char>) -> Option<u8>
    decreases s.len(),
{
    if s.len() == 0 {
        None
    } else if s[0].0 == k {
        Some(s[0].1)
    } else {
        table_get(s.drop_first(), k)
    }
}

proof fn lemma_table_get_push(s: Seq<(Seq<char>, u8)>, k: Seq<char>, v: u8, q: Seq<char>)
    requires
        table_get(s, k) is None,
    ensures
        table_get(s.push((k, v)), q) == if q == k {
            Some(v)
        } else {
            table_get(s, q)
        },
    decreases s.len(),
{
    reveal_with_fuel(table_get, 2);
    assert(s.push((k, v))[0] == if s.len() > 0 {
        s[0]
    } else {
        (k, v)
    });
    if s.len() > 0 {
        assert(s.push((k, v)).drop_first() =~= s.drop_first().push((k, v)));
        lemma_table_get_push(s.drop_first(), k, v, q);
    } else {
        assert(s.push((k, v)).drop_first() =~= Seq::<(Seq<char>, u8)>::empty());
    }
}

proof fn lemma_table_get_update(s: Seq<(Seq<char>, u8)>, i: int, k: Seq<char>, v: u8, q: Seq<char>)
    requires
        0 <= i < s.len(),
        s[i].0 == k,
        forall|j: int| 0 <= j < i ==> s[j].0 != k,
    ensures
        table_get(s.update(i, (k, v)), q) == if q == k {
            Some(v)
        } else {
            table_get(s, q)
        },
        table_get(s, k) == Some(s[i].1),
    decreases i,
{
    assert(s.update(i, (k, v))[0] == if i == 0 {
        (k, v)
    } else {
        s[0]
    });
    if i > 0 {
        assert(s.update(i, (k, v)).drop_first() =~= s.drop_first().update(i - 1, (k, v)));
        assert(s[0].0 != k);
        lemma_table_get_update(s.drop_first(), i - 1, k, v, q);
    } else {
        assert(s.update(i, (k, v)).drop_first() =~= s.drop_first());
    }
}

/// How many NICs each machine has been given an index for, by machine id.
pub struct VmIndexTable {
    entries: Vec<(String, u8)>,
}

impl View for VmIndexTable {
    type V = Seq<(Seq<char>, u8)>;

    closed spec fn view(&self) -> Seq<(Seq<char>, u8)> {
        Seq::new(self.entries@.len(), |i: int| (self.entries@[i].0@, self.entries@[i].1))
    }
}

impl VmIndexTable {
    /// The counter of machine `id` (0 when it has none yet).
    pub open spec fn count(&self, id: Seq<char>) -> u8 {
        match table_get(self@, id) {
            Some(n) => n,
            None => 0,
        }
    }

    pub fn new() -> (t: Self)
        ensures
            forall|id: Seq<char>| #[trigger] t.count(id) == 0,
    {
        let t = VmIndexTable { entries: Vec::new() };
        assert(t@ =~= Seq::<(Seq<char>, u8)>::empty());
        t
    }

    /// The counter of machine `id`.
    pub fn count_of(&self, id: &str) -> (n: u8)
        ensures
            n == self.count(id@),
    {
        let mut i: usize = 0;
        while i < self.entries.len()
            invariant
                i <= self.entries@.len(),
                forall|j: int| 0 <= j < i ==> #[trigger] self@[j].0 != id@,
            decreases self.entries@.len() - i,
        {
            if str_eq(self.entries[i].0.as_str(), id) {
                proof {
                    lemma_table_get_update(self@, i as int, id@, 0, id@);
                }
                return self.entries[i].1;
            }
            i = i + 1;
        }
        proof {
            lemma_table_get_none(self@, id@);
        }
        0
    }

    /// The next index for machine `id`: its counter, which then goes up by one.
    pub fn next_index(&mut self, id: &str) -> (r: u8)
        requires
            old(self).count(id@) < 255,
        ensures
            r == old(self).count(id@),
            final(self).count(id@) == r + 1,
            forall|other: Seq<char>| other != id@ ==> #[trigger] final(self).count(other) == old(self).count(other),
    {
        let mut i: usize = 0;
        while i < self.entries.len()
            invariant
                i <= self.entries@.len(),
                self@ == old(self)@,
                self.count(id@) < 255,
                forall|j: int| 0 <= j < i ==> #[trigger] self@[j].0 != id@,
            decreases self.entries@.len() - i,
        {
            if str_eq(self.entries[i].0.as_str(), id) {
                let n = self.entries[i].1;
                let ghost old_view = self@;
                proof {
                    assert(old_view[i as int].0 == id@);
                    lemma_table_get_update(old_view, i as int, id@, 0, id@);
                }
                let name = self.entries[i].0.clone();
                self.entries.set(i, (name, n + 1));
                proof {
                    assert(self@ =~= old_view.update(i as int, (id@, (n + 1) as u8)));
                    assert forall|q: Seq<char>| true implies #[trigger] table_get(self@, q) == if q
                        == id@ {
                        Some((n + 1) as u8)
                    } else {
                        table_get(old_view, q)
                    } by {
                        lemma_table_get_update(old_view, i as int, id@, (n + 1) as u8, q);
                    }
                }
                return n;
            }
            i = i + 1;
        }
        let ghost old_view = self@;
        proof {
            lemma_table_get_none(old_view, id@);
        }
        self.entries.push((id.to_owned(), 1));
        proof {
            assert(self@ =~= old_view.push((id@, 1u8)));
            assert forall|q: Seq<char>| true implies #[trigger] table_get(self@, q) == if q == id@ {
                Some(1u8)
            } else {
                table_get(old_view, q)
            } by {
                lemma_table_get_push(old_view, id@, 1, q);
            }
        }
        0
    }
}

proof fn lemma_table_get_none(s: Seq<(Seq<char>, u8)>, k: Seq<char>)
    requires
        forall|j: int| 0 <= j < s.len() ==> #[trigger] s[j].0 != k,
    ensures
        table_get(s, k) is None,
    decreases s.len(),
{
    if s.len() > 0 {
        assert forall|j: int| 0 <= j < s.drop_first().len() implies #[trigger] s.drop_first()[j].0 != k by {
            assert(s.drop_first()[j] == s[j + 1]);
        }
        lemma_table_get_none(s.drop_first(), k);
    }
}

} // verus!
