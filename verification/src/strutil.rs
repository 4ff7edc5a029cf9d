//! String assembly for the provider routes and query parameters.

use vstd::prelude::*;

verus! {

/// The parts joined by a single comma between neighbours.
pub open spec fn comma_join(parts: Seq<Seq<char>>) -> Seq<char>
    decreases parts.len(),
{
    if parts.len() == 0 {
        Seq::empty()
    } else if parts.len() == 1 {
        parts[0]
    } else {
        comma_join(parts.drop_last()) + seq![','] + parts.last()
    }
}

/// Joining one more part appends a comma (unless nothing was joined yet) and
/// the part.
pub proof fn lemma_comma_join_push(parts: Seq<Seq<char>>, part: Seq<char>)
    ensures
        parts.len() == 0 ==> comma_join(parts.push(part)) == part,
        parts.len() > 0 ==> comma_join(parts.push(part)) == comma_join(parts) + seq![','] + part,
{
    let t = parts.push(part);
    assert(t.drop_last() =~= parts);
    assert(t.last() == part);
    if parts.len() == 0 {
        assert(comma_join(t) == t[0]);
    }
}

/// Relies on `String::push_str`: appends the slice's characters to the string.
#[verifier::external_body]
fn push_str(s: &mut String, t: &str)
    ensures
        final(s)@ == old(s)@ + t@,
{
    s.push_str(t)
}

/// Joins the parts with commas, as the quote service expects its id and
/// currency lists.
pub fn join_with_commas(parts: &Vec<String>) -> (r: String)
    ensures
        r@ == comma_join(parts.deep_view()),
{
    let mut r = String::new();
    let n = parts.len();
    let mut i: usize = 0;
    while i < n
        invariant
            n == parts@.len(),
            i <= n,
            r@ == comma_join(parts.deep_view().take(i as int)),
        decreases n - i,
    {
        if i > 0 {
            push_str(&mut r, ",");
        }
        push_str(&mut r, parts[i].as_str());
        proof {
            reveal_strlit(",");
            assert(","@ =~= seq![',']);
            let prefix = parts.deep_view().take(i as int);
            lemma_comma_join_push(prefix, parts@[i as int]@);
            assert(parts.deep_view().take(i + 1) =~= prefix.push(parts@[i as int]@));
        }
        i += 1;
    }
    proof {
        assert(parts.deep_view().take(n as int) =~= parts.deep_view());
    }
    r
}

/// The concatenation of the two strings.
pub fn concat_str(base: &String, suffix: &str) -> (r: String)
    ensures
        r@ == base@ + suffix@,
{
    let mut r = base.clone();
    push_str(&mut r, suffix);
    r
}

} // verus!
