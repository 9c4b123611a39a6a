//! Fresh clip ids.
use vstd::prelude::*;

use crate::text::{cat3, Str};

verus! {

/// The character of a hexadecimal digit.
pub open spec fn hex_digit(d: nat) -> char {
    if d < 10 {
        (48 + d) as char
    } else {
        (87 + d) as char
    }
}

/// The last `places` hexadecimal digits of a number, with leading zeros.
pub open spec fn hex_padded(v: nat, places: nat) -> Str
    decreases places,
{
    if places == 0 {
        Seq::empty()
    } else {
        hex_padded(v / 16, (places - 1) as nat).push(hex_digit(v % 16))
    }
}

fn hex(v: u64, places: u32) -> (r: String)
    ensures
        r@ == hex_padded(v as nat, places as nat),
    decreases places,
{
    if places == 0 {
        String::new()
    } else {
        let mut out = hex(v / 16, places - 1);
        let d: u8 = (v % 16) as u8;
        if d < 10 {
            out.push((48 + d) as char);
        } else {
            out.push((87 + d) as char);
        }
        out
    }
}

/// The id of a clip that is made at a time, in nanoseconds, as the `seq`-th of
/// all.
pub open spec fn id_text(nanos: u64, seq: u32) -> Str {
    "c-"@ + hex_padded(nanos as nat, 13) + hex_padded(seq as nat, 3)
}

/// The time in nanoseconds since 1970, by `chrono::Utc::now` and
/// `DateTime::timestamp_nanos_opt`; zero where the latter has none.  Nothing is
/// claimed of the result, which is what the machine's clock says.
#[verifier::external_body]
fn now_nanos() -> i64 {
    chrono::Utc::now().timestamp_nanos_opt().unwrap_or(0)
}

/// Whether a text is the id with a running number, made at some time.
pub open spec fn numbered(id: Str, seq: u32) -> bool {
    exists|nanos: u64| id == #[trigger] id_text(nanos, seq)
}

/// The running number so many steps after another; behind the largest comes zero.
pub open spec fn moved_on(seq: u32, n: nat) -> u32 {
    ((seq + n) % 0x1_0000_0000) as u32
}

/// Where clip ids come from: each carries the time and a running number.
pub struct ClipIds {
    next: u32,
    log: Ghost<Seq<Str>>,
}

impl ClipIds {
    /// The ids handed out so far.
    pub closed spec fn log(self) -> Seq<Str> {
        self.log@
    }

    /// The running number of the next id.
    pub closed spec fn next(self) -> u32 {
        self.next
    }

    /// Ids with running numbers from `first` on.
    pub fn new(first: u32) -> (r: ClipIds)
        ensures
            r.next() == first,
            r.log() == Seq::<Str>::empty(),
    {
        ClipIds { next: first, log: Ghost(Seq::empty()) }
    }

    /// A fresh id.
    pub fn draw(&mut self) -> (r: String)
        ensures
            final(self).log() == old(self).log().push(r@),
            final(self).next() == moved_on(old(self).next(), 1),
            numbered(r@, old(self).next()),
            drew(*old(self), *final(self), 1),
    {
        let nanos: u64 = now_nanos() as u64;
        let seq: u32 = self.next;
        self.next = if seq == u32::MAX {
            0
        } else {
            seq + 1
        };
        let id = cat3("c-", hex(nanos, 13).as_str(), hex(seq as u64, 3).as_str());
        assert(id@ =~= id_text(nanos, old(self).next()));
        self.log = Ghost(self.log@.push(id@));
        assert(in_turn(*old(self), *self)) by {
            reveal(in_turn);
        }
        id
    }
}

/// The ids handed out in between.
pub open spec fn fresh(before: ClipIds, after: ClipIds) -> Seq<Str> {
    after.log().skip(before.log().len() as int)
}

/// Whether the ids handed out in between carry running numbers one after the other,
/// and the number that comes next goes on from there.
#[verifier::opaque]
pub open spec fn in_turn(before: ClipIds, after: ClipIds) -> bool {
    &&& after.next() == moved_on(
        before.next(),
        (after.log().len() - before.log().len()) as nat,
    )
    &&& forall|k: int|
        before.log().len() <= k < after.log().len() ==> numbered(
            #[trigger] after.log()[k],
            moved_on(before.next(), (k - before.log().len()) as nat),
        )
}

/// Whether `n` ids, and no more, were handed out in between, with running numbers
/// one after the other.
pub open spec fn drew(before: ClipIds, after: ClipIds, n: nat) -> bool {
    &&& after.log().len() == before.log().len() + n
    &&& after.log().take(before.log().len() as int) =~= before.log()
    &&& if n == 0 {
        after.next() == before.next()
    } else {
        in_turn(before, after)
    }
}

/// What was handed out in two steps is what was handed out in the first, then in
/// the second.
pub proof fn lemma_drew(a: ClipIds, b: ClipIds, c: ClipIds)
    requires
        drew(a, b, fresh(a, b).len()),
        drew(b, c, fresh(b, c).len()),
    ensures
        drew(a, c, fresh(a, c).len()),
        fresh(a, c) == fresh(a, b) + fresh(b, c),
        fresh(a, c).skip(fresh(a, b).len() as int) == fresh(b, c),
        forall|k: int| 0 <= k < fresh(a, b).len() ==> fresh(a, b)[k] == fresh(a, c)[k],
{
    reveal(in_turn);
    assert(c.log().take(a.log().len() as int) =~= c.log().take(b.log().len() as int).take(
        a.log().len() as int,
    ));
    assert forall|k: int| 0 <= k < b.log().len() implies c.log()[k] == b.log()[k] by {
        assert(c.log().take(b.log().len() as int)[k] == c.log()[k]);
    }
    assert forall|k: int| a.log().len() <= k < c.log().len() implies numbered(
        #[trigger] c.log()[k],
        moved_on(a.next(), (k - a.log().len()) as nat),
    ) by {
        if k < b.log().len() {
            assert(c.log()[k] == b.log()[k]);
        }
    }
    assert(fresh(a, c) =~= fresh(a, b) + fresh(b, c));
    assert(fresh(a, c).skip(fresh(a, b).len() as int) =~= fresh(b, c));
}

} // verus!
