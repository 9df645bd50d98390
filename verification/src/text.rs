//! Small verified string utilities shared by the pipeline.

use vstd::prelude::*;
use vstd::string::*;

verus! {

/// Number of occurrences of the character `c` in `s`.
pub open spec fn count_char(s: Seq<char>, c: char) -> nat
    decreases s.len(),
{
    if s.len() == 0 {
        0
    } else {
        count_char(s.drop_last(), c) + if s.last() == c {
            1nat
        } else {
            0nat
        }
    }
}

pub proof fn lemma_count_char_concat(a: Seq<char>, b: Seq<char>, c: char)
    ensures
        count_char(a + b, c) == count_char(a, c) + count_char(b, c),
    decreases b.len(),
{
    if b.len() == 0 {
        assert(a + b =~= a);
    } else {
        lemma_count_char_concat(a, b.drop_last(), c);
        assert((a + b).drop_last() =~= a + b.drop_last());
        assert((a + b).last() == b.last());
    }
}

/// The tokens of `s` delimited by `sep`: splitting the empty string yields
/// one empty token, and every separator ends one token and begins the next.
pub open spec fn split_on(s: Seq<char>, sep: char) -> Seq<Seq<char>>
    decreases s.len(),
{
    if s.len() == 0 {
        seq![Seq::<char>::empty()]
    } else {
        let rest = split_on(s.subrange(1, s.len() as int), sep);
        if s[0] == sep {
            seq![Seq::<char>::empty()] + rest
        } else {
            seq![seq![s[0]] + rest[0]] + rest.subrange(1, rest.len() as int)
        }
    }
}

pub proof fn lemma_split_on_nonempty(s: Seq<char>, sep: char)
    ensures
        split_on(s, sep).len() >= 1,
    decreases s.len(),
{
    if s.len() > 0 {
        lemma_split_on_nonempty(s.subrange(1, s.len() as int), sep);
    }
}

/// A string without the separator is one single token.
pub proof fn lemma_split_no_sep(s: Seq<char>, sep: char)
    requires
        forall|j: int| 0 <= j < s.len() ==> s[j] != sep,
    ensures
        split_on(s, sep) =~~= seq![s],
    decreases s.len(),
{
    if s.len() == 0 {
        assert(split_on(s, sep) =~~= seq![s]);
    } else {
        let tail = s.subrange(1, s.len() as int);
        assert(forall|j: int| 0 <= j < tail.len() ==> #[trigger] tail[j] == s[j + 1]);
        lemma_split_no_sep(tail, sep);
        assert(seq![s[0]] + tail =~= s);
    }
}

/// Splitting around one separator occurrence splits each side on its own.
pub proof fn lemma_split_at_sep(x: Seq<char>, y: Seq<char>, sep: char)
    ensures
        split_on(x + seq![sep] + y, sep) =~~= split_on(x, sep) + split_on(y, sep),
    decreases x.len(),
{
    let s = x + seq![sep] + y;
    if x.len() == 0 {
        assert(s =~= seq![sep] + y);
        assert(s[0] == sep);
        assert(s.subrange(1, s.len() as int) =~= y);
        assert(split_on(s, sep) =~~= seq![Seq::<char>::empty()] + split_on(y, sep));
        assert(split_on(x, sep) =~~= seq![Seq::<char>::empty()]);
    } else {
        let xt = x.subrange(1, x.len() as int);
        lemma_split_at_sep(xt, y, sep);
        assert(s[0] == x[0]);
        assert(s.subrange(1, s.len() as int) =~= xt + seq![sep] + y);
        let rest = split_on(s.subrange(1, s.len() as int), sep);
        assert(rest =~~= split_on(xt, sep) + split_on(y, sep));
        lemma_split_on_nonempty(xt, sep);
        lemma_split_on_nonempty(y, sep);
        if x[0] == sep {
            assert(split_on(s, sep) =~~= seq![Seq::<char>::empty()] + rest);
            assert(split_on(x, sep) =~~= seq![Seq::<char>::empty()] + split_on(xt, sep));
        } else {
            assert(rest[0] == split_on(xt, sep)[0]);
            assert(rest.subrange(1, rest.len() as int) =~~= split_on(xt, sep).subrange(
                1,
                split_on(xt, sep).len() as int,
            ) + split_on(y, sep));
            assert(split_on(s, sep) =~~= seq![seq![s[0]] + rest[0]] + rest.subrange(
                1,
                rest.len() as int,
            ));
        }
    }
}

/// The views of a sequence of owned strings.
pub open spec fn str_views(ts: Seq<String>) -> Seq<Seq<char>> {
    ts.map_values(|t: String| t@)
}

/// Split a string on a separator character, yielding the owned tokens.
pub fn split_string(s: &str, sep: char) -> (tokens: Vec<String>)
    ensures
        str_views(tokens@) =~~= split_on(s@, sep),
{
    let len = s.unicode_len();
    let ghost full = s@;
    let mut tokens: Vec<String> = Vec::new();
    let mut cur: usize = 0;
    let mut i: usize = 0;
    proof {
        assert(full.subrange(0, len as int) =~= full);
        assert(str_views(tokens@).len() == 0);
    }
    while i < len
        invariant
            cur <= i <= len,
            len == full.len(),
            full == s@,
            str_views(tokens@) + split_on(full.subrange(cur as int, len as int), sep) =~~=
                split_on(full, sep),
            forall|j: int| cur <= j < i ==> full[j] != sep,
        decreases len - i,
    {
        let c = s.get_char(i);
        if c == sep {
            let tok = s.substring_char(cur, i).to_owned();
            proof {
                let seg = full.subrange(cur as int, i as int);
                let tail = full.subrange(i + 1 as int, len as int);
                assert(full.subrange(cur as int, len as int) =~= seg + seq![sep] + tail);
                lemma_split_at_sep(seg, tail, sep);
                lemma_split_no_sep(seg, sep);
                assert(str_views(tokens@.push(tok)) =~~= str_views(tokens@).push(seg));
            }
            tokens.push(tok);
            cur = i + 1;
        }
        i += 1;
    }
    let tok = s.substring_char(cur, len).to_owned();
    proof {
        let seg = full.subrange(cur as int, len as int);
        lemma_split_no_sep(seg, sep);
        assert(str_views(tokens@.push(tok)) =~~= str_views(tokens@).push(seg));
    }
    tokens.push(tok);
    tokens
}

/// Character-for-character string equality, stated over the views.
pub fn str_eq(a: &str, b: &str) -> (r: bool)
    ensures
        r == (a@ == b@),
{
    let alen = a.unicode_len();
    let blen = b.unicode_len();
    if alen != blen {
        return false;
    }
    let mut i: usize = 0;
    while i < alen
        invariant
            i <= alen,
            alen == a@.len(),
            blen == b@.len(),
            alen == blen,
            forall|j: int| 0 <= j < i ==> a@[j] == b@[j],
        decreases alen - i,
    {
        if a.get_char(i) != b.get_char(i) {
            return false;
        }
        i += 1;
    }
    proof {
        assert(a@ =~= b@);
    }
    true
}

} // verus!
