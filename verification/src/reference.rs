//! Resource references and Terraform's `${type.name.attribute}` syntax.

use vstd::prelude::*;
use crate::text::{chars_of, push_char, string_from_range};

verus! {

/// Reference to another resource's output. Renders as
/// `${aws_vpc.main.id}` in Terraform JSON; held typed in memory so that
/// downstream tooling can walk the dependency graph without parsing
/// interpolation strings.
#[derive(Debug, Clone, PartialEq, Eq, Hash)]
pub struct ResourceRef {
    pub type_id: String,
    pub name: String,
    pub attribute: String,
}

/// The three segments of a reference, as character sequences.
pub type RefView = (Seq<char>, Seq<char>, Seq<char>);

impl View for ResourceRef {
    type V = RefView;

    open spec fn view(&self) -> RefView {
        (self.type_id@, self.name@, self.attribute@)
    }
}

/// Terraform's interpolation of an output: `${t.n.a}`.
pub open spec fn interpolation(r: RefView) -> Seq<char> {
    seq!['$', '{'] + r.0 + seq!['.'] + r.1 + seq!['.'] + r.2 + seq!['}']
}

/// Characters that may never occur inside a segment.
pub open spec fn is_reserved(c: char) -> bool {
    c == '.' || c == '$' || c == '{' || c == '}'
}

/// A non-empty run of characters none of which is reserved.
pub open spec fn is_segment(s: Seq<char>) -> bool {
    s.len() > 0 && forall|i: int| 0 <= i < s.len() ==> !is_reserved(#[trigger] s[i])
}

/// All three segments of a reference are well formed, so that its
/// interpolation reads back as the same reference.
pub open spec fn is_coordinate(r: RefView) -> bool {
    is_segment(r.0) && is_segment(r.1) && is_segment(r.2)
}

/// `s` is exactly one interpolation of a well-formed coordinate.
pub open spec fn is_interpolation(s: Seq<char>) -> bool {
    exists|r: RefView| is_coordinate(r) && s == interpolation(r)
}

/// What `s` reads back as: the coordinate it interpolates, if any.
pub open spec fn parse_interpolation(s: Seq<char>) -> Option<RefView> {
    if is_interpolation(s) {
        Some(choose|r: RefView| is_coordinate(r) && s == interpolation(r))
    } else {
        None
    }
}

/// The layout of an interpolation: where its braces and its two dots are.
proof fn lemma_interpolation_layout(r: RefView)
    requires
        is_coordinate(r),
    ensures
        ({
            let s = interpolation(r);
            &&& s.len() == r.0.len() + r.1.len() + r.2.len() + 5
            &&& s[0] == '$' && s[1] == '{' && s[s.len() - 1] == '}'
            &&& forall|i: int| 2 <= i < s.len() - 1 ==> #[trigger] s[i] != '$' && s[i] != '{' && s[i] != '}'
            &&& forall|i: int| 2 <= i < s.len() - 1 ==>
                (#[trigger] s[i] == '.' <==> (i == 2 + r.0.len() || i == 3 + r.0.len() + r.1.len()))
            &&& s.subrange(2, 2 + r.0.len() as int) == r.0
            &&& s.subrange(3 + r.0.len() as int, 3 + r.0.len() + r.1.len() as int) == r.1
            &&& s.subrange(4 + r.0.len() + r.1.len() as int, s.len() - 1) == r.2
        }),
{
    let s = interpolation(r);
    let (t, n, a) = r;
    assert forall|i: int| 2 <= i < s.len() - 1 implies #[trigger] s[i] != '$' && s[i] != '{' && s[i] != '}'
        && (s[i] == '.' <==> (i == 2 + t.len() || i == 3 + t.len() + n.len())) by {
        if i < 2 + t.len() {
            assert(s[i] == t[i - 2]);
        } else if i == 2 + t.len() {
        } else if i < 3 + t.len() + n.len() {
            assert(s[i] == n[i - 3 - t.len()]);
        } else if i == 3 + t.len() + n.len() {
        } else {
            assert(s[i] == a[i - 4 - t.len() - n.len()]);
        }
    }
    let lt = t.len() as int;
    let ln = n.len() as int;
    assert(s.subrange(2, 2 + lt) =~= t);
    assert(s.subrange(3 + lt, 3 + lt + ln) =~= n);
    assert(s.subrange(4 + lt + ln, s.len() - 1) =~= a);
}

/// Two well-formed coordinates with the same interpolation are the same.
pub proof fn lemma_interpolation_injective(r1: RefView, r2: RefView)
    requires
        is_coordinate(r1),
        is_coordinate(r2),
        interpolation(r1) == interpolation(r2),
    ensures
        r1 == r2,
{
    lemma_interpolation_layout(r1);
    lemma_interpolation_layout(r2);
    let s = interpolation(r1);
    let d1: int = (2 + r1.0.len()) as int;
    let e1: int = (2 + r2.0.len()) as int;
    if d1 < e1 {
        assert(s[d1] == '.');
    } else if e1 < d1 {
        assert(s[e1] == '.');
    }
    let d2: int = (3 + r1.0.len() + r1.1.len()) as int;
    let e2: int = (3 + r2.0.len() + r2.1.len()) as int;
    if d2 < e2 {
        assert(s[d2] == '.');
    } else if e2 < d2 {
        assert(s[e2] == '.');
    }
}

/// Law: rendering a well-formed reference and reading it back gives the
/// same reference.
pub proof fn law_interpolation_round_trip(r: RefView)
    requires
        is_coordinate(r),
    ensures
        parse_interpolation(interpolation(r)) == Some(r),
{
    let s = interpolation(r);
    assert(is_interpolation(s));
    let c = choose|c: RefView| is_coordinate(c) && s == interpolation(c);
    lemma_interpolation_injective(c, r);
}

/// Law: whatever reads back as a reference is exactly that reference's
/// rendering, so nothing outside the braces survives a parse.
pub proof fn law_parse_is_exact(s: Seq<char>)
    requires
        parse_interpolation(s) is Some,
    ensures
        is_coordinate(parse_interpolation(s)->0),
        interpolation(parse_interpolation(s)->0) == s,
{
}

impl ResourceRef {
    /// Render as Terraform's interpolation syntax: `${type.name.attribute}`.
    pub fn to_interpolation(&self) -> (r: String)
        ensures
            r@ == interpolation(self@),
    {
        let mut s = String::new();
        push_char(&mut s, '$');
        push_char(&mut s, '{');
        s.append(self.type_id.as_str());
        push_char(&mut s, '.');
        s.append(self.name.as_str());
        push_char(&mut s, '.');
        s.append(self.attribute.as_str());
        push_char(&mut s, '}');
        assert(s@ =~= interpolation(self@));
        s
    }

    /// Parse the exact shape `${a.b.c}` back into a reference.
    ///
    /// Deliberately strict: the whole string must be one interpolation
    /// with exactly three dot-separated non-empty segments and nothing
    /// outside the braces.
    pub fn from_interpolation(s: &str) -> (r: Option<ResourceRef>)
        ensures
            match r {
                Some(rr) => parse_interpolation(s@) == Some(rr@),
                None => parse_interpolation(s@) is None,
            },
    {
        let cs = chars_of(s);
        let n = cs.len();
        if n < 3 || cs[0] != '$' || cs[1] != '{' || cs[n - 1] != '}' {
            proof { Self::lemma_no_parse_when_frame_missing(s@); }
            return None;
        }
        let mut dots: usize = 0;
        let mut first: usize = 0;
        let mut second: usize = 0;
        let mut i: usize = 2;
        while i < n - 1
            invariant
                cs@ == s@,
                n == cs@.len(),
                n >= 3,
                2 <= i <= n - 1,
                dots <= 2,
                dots >= 1 ==> 2 <= first < i && cs@[first as int] == '.',
                dots >= 2 ==> first < second < i && cs@[second as int] == '.',
                forall|j: int| 2 <= j < i ==> #[trigger] cs@[j] != '$' && cs@[j] != '{' && cs@[j] != '}',
                forall|j: int| 2 <= j < i && #[trigger] cs@[j] == '.' ==>
                    (dots >= 1 && j == first) || (dots >= 2 && j == second),
            decreases n - 1 - i,
        {
            let c = cs[i];
            if c == '$' || c == '{' || c == '}' {
                proof { Self::lemma_no_parse_when_char_reserved(s@, i as int); }
                return None;
            }
            if c == '.' {
                if dots == 2 {
                    proof { Self::lemma_no_parse_when_three_dots(s@, first as int, second as int, i as int); }
                    return None;
                } else if dots == 1 {
                    second = i;
                } else {
                    first = i;
                }
                dots = dots + 1;
            }
            i = i + 1;
        }
        if dots != 2 || first == 2 || second == first + 1 || second + 2 == n {
            proof { Self::lemma_no_parse_when_dots_wrong(s@, dots as int, first as int, second as int); }
            return None;
        }
        let type_id = string_from_range(&cs, 2, first);
        let name = string_from_range(&cs, first + 1, second);
        let attribute = string_from_range(&cs, second + 1, n - 1);
        let r = ResourceRef { type_id, name, attribute };
        proof {
            assert(is_segment(r.type_id@));
            assert(is_segment(r.name@));
            assert(is_segment(r.attribute@));
            assert(s@ =~= interpolation(r@));
            law_interpolation_round_trip(r@);
        }
        Some(r)
    }

    proof fn lemma_no_parse_when_frame_missing(s: Seq<char>)
        requires
            s.len() < 3 || s[0] != '$' || s[1] != '{' || s[s.len() - 1] != '}',
        ensures
            !is_interpolation(s),
    {
        if is_interpolation(s) {
            let r = choose|r: RefView| is_coordinate(r) && s == interpolation(r);
            lemma_interpolation_layout(r);
        }
    }

    proof fn lemma_no_parse_when_char_reserved(s: Seq<char>, i: int)
        requires
            s.len() >= 3,
            2 <= i < s.len() - 1,
            s[i] == '$' || s[i] == '{' || s[i] == '}',
        ensures
            !is_interpolation(s),
    {
        if is_interpolation(s) {
            let r = choose|r: RefView| is_coordinate(r) && s == interpolation(r);
            lemma_interpolation_layout(r);
            assert(s[i] != '$' && s[i] != '{' && s[i] != '}');
        }
    }

    proof fn lemma_no_parse_when_three_dots(s: Seq<char>, a: int, b: int, c: int)
        requires
            s.len() >= 3,
            2 <= a < b < c < s.len() - 1,
            s[a] == '.' && s[b] == '.' && s[c] == '.',
        ensures
            !is_interpolation(s),
    {
        if is_interpolation(s) {
            let r = choose|r: RefView| is_coordinate(r) && s == interpolation(r);
            lemma_interpolation_layout(r);
            assert(s[a] == '.');
            assert(s[b] == '.');
            assert(s[c] == '.');
        }
    }

    proof fn lemma_no_parse_when_dots_wrong(s: Seq<char>, dots: int, first: int, second: int)
        requires
            s.len() >= 3,
            0 <= dots <= 2,
            dots >= 1 ==> 2 <= first < s.len() - 1 && s[first] == '.',
            dots >= 2 ==> first < second < s.len() - 1 && s[second] == '.',
            forall|j: int| 2 <= j < s.len() - 1 && #[trigger] s[j] == '.' ==>
                (dots >= 1 && j == first) || (dots >= 2 && j == second),
            dots != 2 || first == 2 || second == first + 1 || second + 2 == s.len(),
        ensures
            !is_interpolation(s),
    {
        if is_interpolation(s) {
            let r = choose|r: RefView| is_coordinate(r) && s == interpolation(r);
            lemma_interpolation_layout(r);
            let d1: int = (2 + r.0.len()) as int;
            let d2: int = (3 + r.0.len() + r.1.len()) as int;
            assert(s[d1] == '.');
            assert(s[d2] == '.');
        }
    }
}

} // verus!
