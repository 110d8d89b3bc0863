//! Verified string utilities for the parser: string comparison and splitting
//! a flag value into its `:`-separated pieces.

use vstd::prelude::*;
use vstd::string::StrSliceExecFns;

verus! {

/// True when no character of `s` is a `:`.
pub open spec fn colon_free(s: Seq<char>) -> bool {
    forall|i: int| 0 <= i < s.len() ==> s[i] != ':'
}

/// The pieces of `s` between its `:` separators, in order. There is always at
/// least one piece: an empty string is one empty piece, and a trailing `:`
/// contributes a final empty piece.
pub open spec fn spec_split(s: Seq<char>) -> Seq<Seq<char>>
    decreases s.len(),
{
    if s.len() == 0 {
        seq![Seq::<char>::empty()]
    } else if s[0] == ':' {
        seq![Seq::<char>::empty()] + spec_split(s.drop_first())
    } else {
        let rest = spec_split(s.drop_first());
        seq![seq![s[0]] + rest[0]] + rest.drop_first()
    }
}

/// Splitting never yields an empty piece list.
pub proof fn lemma_split_nonempty(s: Seq<char>)
    ensures
        spec_split(s).len() >= 1,
    decreases s.len(),
{
    if s.len() != 0 && s[0] != ':' {
        lemma_split_nonempty(s.drop_first());
    }
}

/// A string without separators is a single piece.
pub proof fn lemma_split_colon_free(s: Seq<char>)
    requires
        colon_free(s),
    ensures
        spec_split(s) == seq![s],
    decreases s.len(),
{
    if s.len() == 0 {
        assert(spec_split(s) =~~= seq![s]);
    } else {
        lemma_split_colon_free(s.drop_first());
        assert(spec_split(s) =~~= seq![s]);
    }
}

/// Splitting at the first separator: a separator-free prefix becomes one
/// piece, and the rest is split on its own.
pub proof fn lemma_split_at_colon(u: Seq<char>, v: Seq<char>)
    requires
        colon_free(u),
    ensures
        spec_split(u + seq![':'] + v) == seq![u] + spec_split(v),
    decreases u.len(),
{
    let s = u + seq![':'] + v;
    if u.len() == 0 {
        assert(s =~= seq![':'] + v);
        assert(s[0] == ':');
        assert(s.drop_first() =~= v);
        assert(spec_split(s) =~~= seq![u] + spec_split(v));
    } else {
        assert(s[0] == u[0]);
        assert(s.drop_first() =~= u.drop_first() + seq![':'] + v);
        lemma_split_at_colon(u.drop_first(), v);
        lemma_split_nonempty(v);
        assert(spec_split(s) =~~= seq![u] + spec_split(v));
    }
}

/// Whether the character sequences of two strings are equal.
pub fn str_eq(a: &str, b: &str) -> (r: bool)
    ensures
        r == (a@ == b@),
{
    let sa: String = a.to_owned();
    let sb: String = b.to_owned();
    sa == sb
}

/// Split `s` on `:`, yielding its pieces in order as owned strings.
pub fn split_colon(s: &str) -> (r: Vec<String>)
    ensures
        r.deep_view() == spec_split(s@),
        r.len() >= 1,
{
    let len = s.unicode_len();
    let mut r: Vec<String> = Vec::new();
    let mut start: usize = 0;
    let mut i: usize = 0;
    proof {
        assert(s@.subrange(0, len as int) =~= s@);
        assert(r.deep_view() + spec_split(s@) =~= spec_split(s@));
    }
    while i < len
        invariant
            start <= i <= len,
            len == s@.len(),
            forall|j: int| start <= j < i ==> s@[j] != ':',
            spec_split(s@) == r.deep_view() + spec_split(s@.subrange(start as int, len as int)),
        decreases len - i,
    {
        if s.get_char(i) == ':' {
            let piece = s.substring_char(start, i);
            let ghost prev = r.deep_view();
            r.push(piece.to_owned());
            proof {
                let u = s@.subrange(start as int, i as int);
                let v = s@.subrange(i as int + 1, len as int);
                assert(colon_free(u));
                assert(s@.subrange(start as int, len as int) =~= u + seq![':'] + v);
                lemma_split_at_colon(u, v);
                assert(r.deep_view() =~= prev + seq![u]);
                assert(r.deep_view() + spec_split(v) =~= prev + (seq![u] + spec_split(v)));
            }
            start = i + 1;
        }
        i += 1;
    }
    let piece = s.substring_char(start, len);
    let ghost prev = r.deep_view();
    r.push(piece.to_owned());
    proof {
        let u = s@.subrange(start as int, len as int);
        assert(colon_free(u));
        lemma_split_colon_free(u);
        assert(r.deep_view() =~= prev + seq![u]);
        assert(r.deep_view() =~= spec_split(s@));
        lemma_split_nonempty(s@);
    }
    r
}

} // verus!
