//! The window manager's event stream: parsing its `name>>args` lines
//! and tracking which workspaces exist and which one is focused.
//!
//! The socket I/O lives in the embedding; the grammar and the state
//! transitions live here.

use vstd::prelude::*;

use crate::parse::{parse_u32, spec_all_digits, spec_decimal_value, spec_find_from};

verus! {

/// `m` is the first position of the `>>` separator.
pub open spec fn spec_is_first_marker(s: Seq<u8>, m: int) -> bool {
    &&& 0 <= m
    &&& m + 2 <= s.len()
    &&& s[m] == 0x3E
    &&& s[m + 1] == 0x3E
    &&& forall|j: int| 0 <= j < m ==> !(#[trigger] s[j] == 0x3E && s[j + 1] == 0x3E)
}

/// Splits a line at the first `>>`: the event name and its arguments.
pub fn split_event_line<'a>(line: &'a [u8]) -> (r: Option<(&'a [u8], &'a [u8])>)
    ensures
        match r {
            Option::Some(parts) => exists|m: int|
                #![trigger spec_is_first_marker(line@, m)]
                spec_is_first_marker(line@, m) && parts.0@ =~= line@.take(m) && parts.1@
                    =~= line@.skip(m + 2),
            Option::None => forall|m: int| !spec_is_first_marker(line@, m),
        },
{
    if line.len() < 2 {
        return Option::None;
    }
    let mut i: usize = 0;
    let n = line.len();
    while i + 1 < n
        invariant
            n == line@.len(),
            line@.len() >= 2,
            i + 1 <= line@.len(),
            forall|j: int| 0 <= j < i ==> !(#[trigger] line@[j] == 0x3E && line@[j + 1] == 0x3E),
        decreases line@.len() - i,
    {
        if line[i] == 0x3E && line[i + 1] == 0x3E {
            let name = &line[0..i];
            let args = &line[i + 2..line.len()];
            proof {
                assert(spec_is_first_marker(line@, i as int));
                assert(name@ =~= line@.take(i as int));
                assert(args@ =~= line@.skip(i as int + 2));
            }
            return Option::Some((name, args));
        }
        i = i + 1;
    }
    proof {
        assert forall|m: int| !spec_is_first_marker(line@, m) by {
            if 0 <= m && m + 2 <= line@.len() {
                assert(m < line@.len() - 1);
                assert(!(line@[m] == 0x3E && line@[m + 1] == 0x3E));
            }
        }
    }
    Option::None
}

/// ASCII whitespace as the event stream uses it.
pub open spec fn spec_is_ws(b: u8) -> bool {
    b == 0x20 || b == 0x09 || b == 0x0A || b == 0x0D
}

/// The byte string with its leading whitespace shaved.
pub open spec fn spec_trim_front(s: Seq<u8>) -> Seq<u8>
    decreases s.len(),
{
    if s.len() > 0 && spec_is_ws(s[0]) {
        spec_trim_front(s.skip(1))
    } else {
        s
    }
}

/// The byte string with its trailing whitespace shaved.
pub open spec fn spec_trim_back(s: Seq<u8>) -> Seq<u8>
    decreases s.len(),
{
    if s.len() > 0 && spec_is_ws(s.last()) {
        spec_trim_back(s.drop_last())
    } else {
        s
    }
}

/// The byte string with whitespace shaved off both ends.
pub open spec fn spec_trim(s: Seq<u8>) -> Seq<u8> {
    spec_trim_back(spec_trim_front(s))
}

fn is_ws(b: u8) -> (r: bool)
    ensures
        r == spec_is_ws(b),
{
    b == 0x20 || b == 0x09 || b == 0x0A || b == 0x0D
}

/// Shaves ASCII whitespace off both ends, exactly as `spec_trim`
/// states it.
pub fn trim(s: &[u8]) -> (r: &[u8])
    ensures
        r@ =~= spec_trim(s@),
{
    proof {
        assert(s@.skip(0) =~= s@);
    }
    let mut a: usize = 0;
    while a < s.len() && is_ws(s[a])
        invariant
            a <= s@.len(),
            spec_trim_front(s@) == spec_trim_front(s@.skip(a as int)),
        decreases s@.len() - a,
    {
        proof {
            assert(s@.skip(a as int).skip(1) =~= s@.skip(a as int + 1));
            assert(s@.skip(a as int)[0] == s@[a as int]);
        }
        a = a + 1;
    }
    proof {
        assert(spec_trim_front(s@) =~= s@.skip(a as int));
    }
    let ghost front = s@.skip(a as int);
    proof {
        assert(front.take(s@.len() - a) =~= front);
    }
    let mut b: usize = s.len();
    while b > a && is_ws(s[b - 1])
        invariant
            a <= b <= s@.len(),
            front == s@.skip(a as int),
            spec_trim_back(front) == spec_trim_back(front.take(b - a)),
        decreases b,
    {
        proof {
            assert(front.take(b - a).drop_last() =~= front.take(b - a - 1));
            assert(front.take(b - a).last() == s@[b - 1]);
        }
        b = b - 1;
    }
    proof {
        if b > a {
            assert(front.take(b - a).last() == s@[b - 1]);
        }
        assert(spec_trim_back(front) =~= front.take(b - a));
    }
    let r = &s[a..b];
    proof {
        assert(r@ =~= s@.subrange(a as int, b as int));
        assert(s@.subrange(a as int, b as int) =~= front.take(b - a));
    }
    r
}

/// The number before the first comma (or the whole string when no
/// comma follows), as `workspacev2` and `destroyworkspacev2` carry
/// it: `5,name` names workspace 5.
pub open spec fn spec_leading_number(s: Seq<u8>) -> Option<u32> {
    let part = s.take(spec_find_from(s, 0, 0x2C));
    if part.len() > 0 && spec_all_digits(part) && spec_decimal_value(part) <= u32::MAX {
        Option::Some(spec_decimal_value(part) as u32)
    } else {
        Option::None
    }
}

pub fn parse_leading_number(args: &[u8]) -> (r: Option<u32>)
    ensures
        r == spec_leading_number(args@),
{
    let end = crate::parse::find_from(args, 0, 0x2C);
    let part = &args[0..end];
    proof {
        assert(part@ =~= args@.take(end as int));
    }
    parse_u32(part)
}

/// The number after the first comma, its surrounding whitespace
/// shaved, as `focusedmonv2` carries it: `name,5` names workspace 5.
pub open spec fn spec_trailing_number(s: Seq<u8>) -> Option<u32> {
    let i = spec_find_from(s, 0, 0x2C);
    if i >= s.len() {
        Option::None
    } else {
        let part = spec_trim(s.skip(i + 1));
        if part.len() > 0 && spec_all_digits(part) && spec_decimal_value(part) <= u32::MAX {
            Option::Some(spec_decimal_value(part) as u32)
        } else {
            Option::None
        }
    }
}

pub fn parse_trailing_number(args: &[u8]) -> (r: Option<u32>)
    ensures
        r == spec_trailing_number(args@),
{
    let alen = args.len();
    let i = crate::parse::find_from(args, 0, 0x2C);
    if i >= alen {
        return Option::None;
    }
    let rest = &args[i + 1..alen];
    proof {
        assert(rest@ =~= args@.skip(i as int + 1));
    }
    let part = trim(rest);
    parse_u32(part)
}

/// One workspace as the bar tracks it.
#[derive(Clone, Copy, Debug, PartialEq, Eq, Structural)]
pub struct Workspace {
    pub id: u32,
    pub focused: bool,
}

/// The workspace list, kept in the order the window manager reports.
pub struct HyprState {
    pub workspaces: Vec<Workspace>,
}

impl HyprState {
    pub fn new() -> (r: HyprState)
        ensures
            r.workspaces@.len() == 0,
    {
        HyprState { workspaces: Vec::new() }
    }

    /// Marks exactly the workspace with this id focused, and reports
    /// whether it was found; when it is unknown the caller must
    /// reload the list.
    pub fn focus_workspace(&mut self, id: u32) -> (found: bool)
        ensures
            final(self).workspaces@.len() == old(self).workspaces@.len(),
            forall|i: int|
                0 <= i < old(self).workspaces@.len() ==> final(self).workspaces@[i] == (Workspace {
                    focused: old(self).workspaces@[i].id == id,
                    ..#[trigger] old(self).workspaces@[i]
                }),
            found == exists|i: int|
                0 <= i < old(self).workspaces@.len() && (#[trigger] old(
                    self,
                ).workspaces@[i]).id == id,
    {
        let ghost orig = self.workspaces@;
        let mut found = false;
        let mut i: usize = 0;
        while i < self.workspaces.len()
            invariant
                i <= orig.len(),
                self.workspaces@.len() == orig.len(),
                forall|j: int|
                    0 <= j < i ==> self.workspaces@[j] == (Workspace {
                        focused: orig[j].id == id,
                        ..#[trigger] orig[j]
                    }),
                forall|j: int| i <= j < orig.len() ==> self.workspaces@[j] == orig[j],
                found == exists|j: int| 0 <= j < i && (#[trigger] orig[j]).id == id,
            decreases orig.len() - i,
        {
            let w = self.workspaces[i];
            let hit = w.id == id;
            self.workspaces[i] = Workspace { focused: hit, ..w };
            if hit {
                found = true;
            }
            proof {
                if hit {
                    assert(orig[i as int].id == id);
                }
            }
            i = i + 1;
        }
        found
    }

    /// Drops the workspace with this id, keeping the others in order.
    pub fn destroy_workspace(&mut self, id: u32)
        ensures
            final(self).workspaces@ == old(self).workspaces@.filter(
                |w: Workspace| w.id != id,
            ),
    {
        let ghost orig = self.workspaces@;
        let mut kept: Vec<Workspace> = Vec::new();
        let mut i: usize = 0;
        while i < self.workspaces.len()
            invariant
                i <= orig.len(),
                self.workspaces@ == orig,
                kept@ == orig.take(i as int).filter(|w: Workspace| w.id != id),
            decreases orig.len() - i,
        {
            let w = self.workspaces[i];
            proof {
                reveal_with_fuel(Seq::filter, 2);
                assert(orig.take(i as int + 1).drop_last() =~= orig.take(i as int));
                assert(orig.take(i as int + 1).last() == orig[i as int]);
            }
            if w.id != id {
                kept.push(w);
            }
            i = i + 1;
        }
        proof {
            assert(orig.take(orig.len() as int) =~= orig);
        }
        self.workspaces = kept;
    }
}

} // verus!
