//! Character-level helpers shared by the extractor and the report: trimming
//! surrounding whitespace and joining pieces of text.
use vstd::prelude::*;
use vstd::string::StrSliceExecFns;
use vstd::string::StringExecFns;

verus! {

/// What `char::is_whitespace` returns for a character: whether it has the
/// Unicode `White_Space` property, a function of the character alone.
pub uninterp spec fn is_whitespace_char(c: char) -> bool;

/// Relies on `char::is_whitespace` (std): true exactly for characters with
/// the Unicode `White_Space` property, a function of the character alone.
#[verifier::external_body]
fn char_is_whitespace(c: char) -> (r: bool)
    ensures
        r == is_whitespace_char(c),
{
    c.is_whitespace()
}

/// The sequence with its leading whitespace removed.
pub open spec fn trim_start(s: Seq<char>) -> Seq<char>
    decreases s.len(),
{
    if s.len() > 0 && is_whitespace_char(s[0]) {
        trim_start(s.drop_first())
    } else {
        s
    }
}

/// The sequence with its trailing whitespace removed.
pub open spec fn trim_end(s: Seq<char>) -> Seq<char>
    decreases s.len(),
{
    if s.len() > 0 && is_whitespace_char(s.last()) {
        trim_end(s.drop_last())
    } else {
        s
    }
}

/// The sequence with leading and trailing whitespace removed.
pub open spec fn trimmed(s: Seq<char>) -> Seq<char> {
    trim_end(trim_start(s))
}

/// Removes leading and trailing whitespace, as `trimmed` describes.
pub fn trim_str<'a>(s: &'a str) -> (r: &'a str)
    ensures
        r@ == trimmed(s@),
{
    let n = s.unicode_len();
    let ghost sv = s@;
    proof {
        assert(sv.subrange(0, n as int) =~= sv);
    }
    let mut i: usize = 0;
    while i < n && char_is_whitespace(s.get_char(i))
        invariant
            n == sv.len(),
            s@ == sv,
            0 <= i <= n,
            trim_start(sv) == trim_start(sv.subrange(i as int, n as int)),
        decreases n - i,
    {
        proof {
            let cur = sv.subrange(i as int, n as int);
            assert(cur[0] == sv[i as int]);
            assert(cur.drop_first() =~= sv.subrange(i + 1, n as int));
        }
        i = i + 1;
    }
    let start = i;
    proof {
        let cur = sv.subrange(start as int, n as int);
        if start < n {
            assert(cur[0] == sv[start as int]);
        }
        assert(trim_start(sv) == cur);
    }
    let mut j: usize = n;
    while j > start && char_is_whitespace(s.get_char(j - 1))
        invariant
            n == sv.len(),
            s@ == sv,
            0 <= start <= j <= n,
            trim_start(sv) == sv.subrange(start as int, n as int),
            trim_end(sv.subrange(start as int, n as int)) == trim_end(
                sv.subrange(start as int, j as int),
            ),
        decreases j,
    {
        proof {
            let cur = sv.subrange(start as int, j as int);
            assert(cur.last() == sv[j - 1]);
            assert(cur.drop_last() =~= sv.subrange(start as int, j - 1));
        }
        j = j - 1;
    }
    proof {
        let cur = sv.subrange(start as int, j as int);
        if j > start {
            assert(cur.last() == sv[j - 1]);
        }
        assert(trim_end(sv.subrange(start as int, j as int)) == cur);
        assert(trimmed(sv) == cur);
    }
    s.substring_char(start, j)
}

/// The concatenation of a sequence of character sequences, in order.
pub open spec fn concat_all(ss: Seq<Seq<char>>) -> Seq<char>
    decreases ss.len(),
{
    if ss.len() == 0 {
        Seq::empty()
    } else {
        ss.first() + concat_all(ss.drop_first())
    }
}

/// Appending one more piece extends the concatenation at its end.
pub proof fn lemma_concat_all_push(ss: Seq<Seq<char>>, t: Seq<char>)
    ensures
        concat_all(ss.push(t)) == concat_all(ss) + t,
    decreases ss.len(),
{
    if ss.len() == 0 {
        assert(ss.push(t).first() == t);
        assert(ss.push(t).drop_first() =~= Seq::<Seq<char>>::empty());
        assert(concat_all(ss.push(t)) == t + concat_all(Seq::<Seq<char>>::empty()));
        assert(concat_all(ss.push(t)) =~= t);
        assert(concat_all(ss) + t =~= t);
    } else {
        assert(ss.push(t).first() == ss.first());
        assert(ss.push(t).drop_first() =~= ss.drop_first().push(t));
        lemma_concat_all_push(ss.drop_first(), t);
        assert(concat_all(ss.push(t)) =~= concat_all(ss) + t);
    }
}

/// Joins the strings into one, in order, with nothing between them.
pub fn join_all(ts: &Vec<String>) -> (r: String)
    ensures
        r@ == concat_all(ts.deep_view()),
{
    let ghost dv = ts.deep_view();
    let mut r = String::new();
    let mut i: usize = 0;
    while i < ts.len()
        invariant
            dv == ts.deep_view(),
            0 <= i <= ts.len(),
            dv.len() == ts.len(),
            r@ == concat_all(dv.subrange(0, i as int)),
        decreases ts.len() - i,
    {
        r.append(ts[i].as_str());
        proof {
            assert(dv[i as int] == ts@[i as int]@);
            assert(dv.subrange(0, i as int).push(dv[i as int]) =~= dv.subrange(0, (i + 1) as int));
            lemma_concat_all_push(dv.subrange(0, i as int), dv[i as int]);
        }
        i = i + 1;
    }
    proof {
        assert(dv.subrange(0, dv.len() as int) =~= dv);
    }
    r
}

} // verus!
