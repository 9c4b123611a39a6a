//! What the forms of texts and numbers say.
use vstd::prelude::*;

use crate::path::{extension_of, last_dot, stem_of};
use crate::text::{
    decimal, is_blank, is_white, lemma_split_on, lowered, split_on, trimmed, trimmed_end,
    trimmed_start, Str,
};
use crate::title::is_graphic_color;

verus! {

// ---- white space --------------------------------------------------------------------

proof fn lemma_trimmed_start(s: Str)
    ensures
        ({
            let t = trimmed_start(s);
            let n = s.len() - t.len();
            &&& 0 <= n
            &&& t == s.skip(n)
            &&& forall|k: int| 0 <= k < n ==> is_white(#[trigger] s[k])
            &&& t.len() > 0 ==> !is_white(t[0])
        }),
    decreases s.len(),
{
    if s.len() > 0 && is_white(s[0]) {
        lemma_trimmed_start(s.drop_first());
        let t = trimmed_start(s);
        let n = s.len() - t.len();
        assert(t =~= s.skip(n));
        assert forall|k: int| 0 <= k < n implies is_white(#[trigger] s[k]) by {
            if k > 0 {
                assert(s.drop_first()[k - 1] == s[k]);
            }
        }
    } else {
        assert(s =~= s.skip(0));
    }
}

proof fn lemma_trimmed_end(s: Str)
    ensures
        ({
            let t = trimmed_end(s);
            let n = t.len() as int;
            &&& n <= s.len()
            &&& t == s.take(n)
            &&& forall|k: int| n <= k < s.len() ==> is_white(#[trigger] s[k])
            &&& n > 0 ==> !is_white(t.last())
        }),
    decreases s.len(),
{
    if s.len() > 0 && is_white(s.last()) {
        lemma_trimmed_end(s.drop_last());
        let t = trimmed_end(s);
        let n = t.len() as int;
        assert(t =~= s.take(n));
        assert forall|k: int| n <= k < s.len() implies is_white(#[trigger] s[k]) by {
            if k < s.len() - 1 {
                assert(s.drop_last()[k] == s[k]);
            }
        }
    } else {
        assert(s =~= s.take(s.len() as int));
    }
}

/// A text that is trimmed loses white space at both ends, all of it and nothing else.
pub proof fn law_trimming_takes_white_space_off(s: Str)
    ensures
        exists|a: int, b: int|
            {
                &&& 0 <= a <= b <= s.len()
                &&& trimmed(s) == #[trigger] s.subrange(a, b)
                &&& forall|k: int| 0 <= k < a || b <= k < s.len() ==> is_white(#[trigger] s[k])
                &&& a < b ==> !is_white(s[a]) && !is_white(s[b - 1])
            },
{
    lemma_trimmed_start(s);
    let t = trimmed_start(s);
    lemma_trimmed_end(t);
    let u = trimmed_end(t);
    let a = s.len() - t.len();
    let b = a + u.len();
    assert(u =~= s.subrange(a, b));
    assert forall|k: int| 0 <= k < a || b <= k < s.len() implies is_white(#[trigger] s[k]) by {
        if b <= k {
            assert(t[k - a] == s[k]);
        }
    }
    if a < b {
        assert(u[0] == s[a]);
        assert(u[0] == t[0]);
        assert(u.last() == s[b - 1]);
    }
}

/// A text that was trimmed is not trimmed further.
pub proof fn law_trimming_is_idempotent(s: Str)
    ensures
        trimmed(trimmed(s)) == trimmed(s),
{
    lemma_trimmed_start(s);
    lemma_trimmed_end(trimmed_start(s));
    let u = trimmed(s);
    if u.len() > 0 {
        assert(u[0] == trimmed_start(s)[0]);
    }
}

/// A text is blank exactly where nothing but white space is in it.
pub proof fn law_blank_is_white_throughout(s: Str)
    ensures
        is_blank(s) <==> forall|k: int| 0 <= k < s.len() ==> is_white(#[trigger] s[k]),
{
    lemma_trimmed_start(s);
    let t = trimmed_start(s);
    lemma_trimmed_end(t);
    if is_blank(s) {
        assert forall|k: int| 0 <= k < s.len() implies is_white(#[trigger] s[k]) by {
            if k >= s.len() - t.len() {
                assert(t[k - (s.len() - t.len())] == s[k]);
            }
        }
    }
    if forall|k: int| 0 <= k < s.len() ==> is_white(#[trigger] s[k]) {
        if t.len() > 0 {
            assert(t[0] == s[s.len() - t.len()]);
        }
    }
}

// ---- numbers ------------------------------------------------------------------------

/// The number that decimal digits stand for.
pub open spec fn read(s: Str) -> int
    decreases s.len(),
{
    if s.len() == 0 {
        0
    } else {
        read(s.drop_last()) * 10 + (s.last() as int - '0' as int)
    }
}

/// The digits that a number is written with stand for the number.
pub proof fn law_a_number_is_read_as_written(n: nat)
    ensures
        read(decimal(n)) == n,
        decimal(n).len() > 0,
        forall|k: int| 0 <= k < decimal(n).len() ==> '0' <= (#[trigger] decimal(n)[k]) <= '9',
    decreases n,
{
    let d = decimal(n);
    if n >= 10 {
        law_a_number_is_read_as_written(n / 10);
        assert(d.drop_last() =~= decimal(n / 10));
        assert forall|k: int| 0 <= k < d.len() implies '0' <= (#[trigger] d[k]) <= '9' by {
            if k < d.len() - 1 {
                assert(d[k] == decimal(n / 10)[k]);
            }
        }
    } else {
        assert(d.drop_last() =~= Seq::<char>::empty());
        assert(read(d.drop_last()) == 0);
    }
}

// ---- paths ------------------------------------------------------------------------------

proof fn lemma_last_dot(s: Str, end: int)
    requires
        0 <= end <= s.len(),
    ensures
        match last_dot(s, end) {
            Some(k) => 0 <= k < end && s[k] == '.' && forall|j: int|
                k < j < end ==> #[trigger] s[j] != '.',
            None => forall|j: int| 0 <= j < end ==> #[trigger] s[j] != '.',
        },
    decreases end,
{
    if end > 0 && s[end - 1] != '.' {
        lemma_last_dot(s, end - 1);
    }
}

/// The extension of a name is what follows its last dot, and its stem what stands before
/// it; a dot in front of the name does not count, and a name without one has no extension.
pub proof fn law_a_name_is_its_stem_and_its_extension(name: Str)
    ensures
        match extension_of(name) {
            Some(e) => {
                &&& name == stem_of(name) + seq!['.'] + e
                &&& stem_of(name).len() > 0
                &&& forall|j: int| 0 <= j < e.len() ==> #[trigger] e[j] != '.'
            },
            None => stem_of(name) == name && forall|j: int|
                0 < j < name.len() ==> #[trigger] name[j] != '.',
        },
{
    lemma_last_dot(name, name.len() as int);
    if let Some(k) = last_dot(name, name.len() as int) {
        if k > 0 {
            let e = name.skip(k + 1);
            assert(name =~= name.take(k) + seq!['.'] + e);
            assert forall|j: int| 0 <= j < e.len() implies #[trigger] e[j] != '.' by {
                assert(e[j] == name[k + 1 + j]);
            }
        }
    }
}

// ---- letters --------------------------------------------------------------------------

/// Lowering a text keeps its length, moves each capital `A` to `Z` up to the small letter
/// 32 code points on and leaves every other character alone, so that no capital is left
/// and a second time changes nothing.
pub proof fn law_lowering_moves_capitals_only(s: Str)
    ensures
        lowered(s).len() == s.len(),
        forall|i: int|
            0 <= i < s.len() ==> {
                let c = s[i] as int;
                let d = #[trigger] lowered(s)[i] as int;
                &&& 65 <= c && c <= 90 ==> d == c + 32
                &&& c < 65 || 90 < c ==> d == c
                &&& !(65 <= d && d <= 90)
            },
        lowered(lowered(s)) == lowered(s),
{
    assert(lowered(lowered(s)) =~= lowered(s));
}

/// A colour is `#` with three, four, six or eight characters that are each a digit or one
/// of the first six letters in either case, or at least one character, each a plain
/// letter or digit.
pub proof fn law_a_colour_is_a_code_or_a_name(s: Str)
    ensures
        is_graphic_color(s) <==> {
            ||| s.len() > 0 && s[0] as int == 35 && seq![3int, 4, 6, 8].contains(s.len() - 1)
                && forall|i: int|
                1 <= i < s.len() ==> {
                    let c = #[trigger] s[i] as int;
                    (48 <= c && c < 58) || (65 <= c && c < 71) || (97 <= c && c < 103)
                }
            ||| s.len() > 0 && forall|i: int|
                0 <= i < s.len() ==> {
                    let c = #[trigger] s[i] as int;
                    (48 <= c && c < 58) || (65 <= c && c < 91) || (97 <= c && c < 123)
                }
        },
{
    let sizes = seq![3int, 4, 6, 8];
    assert(sizes[0] == 3 && sizes[1] == 4 && sizes[2] == 6 && sizes[3] == 8);
    if s.len() > 0 && s[0] == '#' {
        assert(s[0] as int == 35);
    }
}

// ---- parts ----------------------------------------------------------------------------

/// Parts one behind the other with a character between any two.
pub open spec fn put_together(parts: Seq<Str>, c: char) -> Str
    decreases parts.len(),
{
    if parts.len() <= 1 {
        if parts.len() == 0 {
            Seq::empty()
        } else {
            parts[0]
        }
    } else {
        put_together(parts.drop_last(), c).push(c) + parts.last()
    }
}

/// What a text is split into holds the separator nowhere, and put together again with the
/// separator between any two parts it is the text.
pub proof fn law_parts_make_up_the_text(s: Str, c: char)
    ensures
        put_together(split_on(s, c), c) == s,
        forall|k: int| 0 <= k < split_on(s, c).len() ==> !(#[trigger] split_on(s, c)[k]).contains(c),
    decreases s.len(),
{
    let parts = split_on(s, c);
    if s.len() > 0 {
        let front = s.drop_last();
        let before = split_on(front, c);
        law_parts_make_up_the_text(front, c);
        lemma_split_on(front, c);
        assert(s =~= front.push(s.last()));
        if s.last() == c {
            assert(parts.drop_last() =~= before);
            assert(put_together(parts, c) =~= front.push(c));
        } else {
            let n = before.len() - 1;
            assert(parts.drop_last() =~= before.drop_last());
            assert(put_together(parts, c) =~= put_together(before, c).push(s.last()));
            assert forall|k: int| 0 <= k < parts.len() implies !(#[trigger] parts[k]).contains(c) by {
                assert(!before[k].contains(c));
                if k == n && parts[k].contains(c) {
                    let j = choose|j: int| 0 <= j < parts[k].len() && parts[k][j] == c;
                    assert(before[k][j] == c);
                }
            }
        }
    }
}

} // verus!
