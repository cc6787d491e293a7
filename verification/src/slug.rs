//! Character-level slugification of heading text: case folding, space to
//! hyphen, and dropping everything that is neither alphanumeric nor a hyphen.

use vstd::prelude::*;

verus! {

/// What `str::to_lowercase` returns; a function of the characters alone.
pub uninterp spec fn lower_of(s: Seq<char>) -> Seq<char>;

/// Relies on `str::to_lowercase`: the lowercase equivalent of the string,
/// depending on its characters alone.
pub assume_specification[ str::to_lowercase ](s: &str) -> (r: String)
    ensures
        r@ == lower_of(s@),
;

/// Whether `char::is_alphanumeric` holds of the character.
pub uninterp spec fn is_alphanum(c: char) -> bool;

/// Relies on `char::is_alphanumeric`: a predicate on the character alone.
pub assume_specification[ char::is_alphanumeric ](c: char) -> (r: bool)
    ensures
        r == is_alphanum(c),
;

/// What one character of already-lowercased heading text contributes to the
/// slug: a space becomes a hyphen, alphanumerics and hyphens stay, everything
/// else is dropped.
pub open spec fn slug_char(c: char) -> Seq<char> {
    if c == ' ' {
        seq!['-']
    } else if is_alphanum(c) || c == '-' {
        seq![c]
    } else {
        Seq::<char>::empty()
    }
}

/// The slug of an already-lowercased text.
pub open spec fn slug_filter(u: Seq<char>) -> Seq<char>
    decreases u.len(),
{
    if u.len() == 0 {
        Seq::<char>::empty()
    } else {
        slug_filter(u.drop_last()) + slug_char(u.last())
    }
}

/// The base slug candidate of a heading text: case fold, then filter.
pub open spec fn slug_base_spec(t: Seq<char>) -> Seq<char> {
    slug_filter(lower_of(t))
}

proof fn lemma_slug_filter_snoc(u: Seq<char>, i: int)
    requires
        0 <= i < u.len(),
    ensures
        slug_filter(u.take(i + 1)) == slug_filter(u.take(i)) + slug_char(u[i]),
{
    assert(u.take(i + 1).drop_last() =~= u.take(i));
    assert(u.take(i + 1).last() == u[i]);
}

/// The base slug candidate of a heading text, before uniqueness suffixing.
pub fn slug_base(text: &str) -> (r: String)
    ensures
        r@ == slug_base_spec(text@),
{
    let lowered = text.to_lowercase();
    let n = lowered.as_str().unicode_len();
    let mut r = String::new();
    let mut i: usize = 0;
    while i < n
        invariant
            n == lowered@.len(),
            lowered@ == lower_of(text@),
            i <= n,
            r@ == slug_filter(lowered@.take(i as int)),
        decreases n - i,
    {
        let c = lowered.as_str().get_char(i);
        proof {
            lemma_slug_filter_snoc(lowered@, i as int);
        }
        if c == ' ' {
            r.push('-');
        } else if c.is_alphanumeric() || c == '-' {
            r.push(c);
        }
        i = i + 1;
    }
    proof {
        assert(lowered@.take(n as int) =~= lowered@);
    }
    r
}

} // verus!
