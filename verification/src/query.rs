//! Types for selecting what harness need to be extracted.
//!
//! A harness name has four parts separated by `/`: instruction, method, chip and type.
//! A query holds one expression per part; a name matches when each part matches.

use vstd::prelude::*;
use vstd::string::{StrSliceExecFns, StringExecFns};
use crate::chips::{Chip, Type};
use crate::text::str_eq;

verus! {

/// Whether `s` holds a `/` at an index.
pub open spec fn is_slash_at(s: Seq<char>) -> spec_fn(int) -> bool {
    |j: int| s[j] == '/'
}

/// Indices of the `/` characters of `s`, in order.
pub open spec fn slash_positions(s: Seq<char>) -> Seq<int> {
    Seq::new(s.len(), |j: int| j).filter(is_slash_at(s))
}

/// The parts of `s` between its `/` characters, as `str::split('/')` gives them.
pub open spec fn split_slash(s: Seq<char>) -> Seq<Seq<char>> {
    let p = slash_positions(s);
    Seq::new(
        p.len() + 1,
        |k: int|
            s.subrange(
                if k == 0 {
                    0
                } else {
                    p[k - 1] + 1
                },
                if k == p.len() {
                    s.len() as int
                } else {
                    p[k]
                },
            ),
    )
}

proof fn lemma_positions_ordered(s: Seq<char>)
    ensures
        forall|a: int, b: int|
            0 <= a < b < slash_positions(s).len() ==> slash_positions(s)[a] < slash_positions(s)[b],
        forall|a: int|
            0 <= a < slash_positions(s).len() ==> 0 <= #[trigger] slash_positions(s)[a] < s.len(),
    decreases s.len(),
{
    reveal(Seq::filter);
    let idx = Seq::new(s.len(), |j: int| j);
    if s.len() > 0 {
        let t = s.drop_last();
        lemma_positions_ordered(t);
        let idx_t = Seq::new(t.len(), |j: int| j);
        assert(idx.drop_last() =~= idx_t);
        lemma_filter_same(idx_t, is_slash_at(s), is_slash_at(t));
        assert(slash_positions(t) == idx_t.filter(is_slash_at(s)));
    }
}

proof fn lemma_filter_same(idx: Seq<int>, p: spec_fn(int) -> bool, q: spec_fn(int) -> bool)
    requires
        forall|i: int| 0 <= i < idx.len() ==> p(#[trigger] idx[i]) == q(idx[i]),
    ensures
        idx.filter(p) == idx.filter(q),
    decreases idx.len(),
{
    reveal(Seq::filter);
    if idx.len() > 0 {
        lemma_filter_same(idx.drop_last(), p, q);
    }
}

/// The slash positions of `s` are exactly its indices that hold a `/`.
proof fn lemma_positions_complete(s: Seq<char>)
    ensures
        forall|k: int| 0 <= k < slash_positions(s).len() ==> s[#[trigger] slash_positions(s)[k]] == '/',
        forall|j: int| 0 <= j < s.len() && s[j] == '/' ==> slash_positions(s).contains(j),
{
    let idx = Seq::new(s.len(), |j: int| j);
    lemma_positions_ordered(s);
    assert forall|k: int| 0 <= k < slash_positions(s).len() implies s[#[trigger] slash_positions(s)[k]] == '/' by {
        idx.lemma_filter_pred(is_slash_at(s), k);
    }
    assert forall|j: int| 0 <= j < s.len() && s[j] == '/' implies slash_positions(s).contains(j) by {
        assert(idx[j] == j);
        idx.lemma_filter_contains(is_slash_at(s), j);
    }
}

/// A name of four parts is its parts joined by `/`, and no part holds a `/`.
pub proof fn lemma_split_slash_four(s: Seq<char>)
    requires
        split_slash(s).len() == 4,
    ensures
        split_slash(s)[0] + "/"@ + split_slash(s)[1] + "/"@ + split_slash(s)[2] + "/"@ + split_slash(s)[3]
            == s,
        forall|k: int, j: int|
            0 <= k < 4 && 0 <= j < split_slash(s)[k].len() ==> #[trigger] split_slash(s)[k][j] != '/',
{
    reveal_strlit("/");
    lemma_positions_ordered(s);
    lemma_positions_complete(s);
    let p = slash_positions(s);
    let parts = split_slash(s);
    assert(p.len() == 3);
    assert(s[p[0]] == '/');
    assert(s[p[1]] == '/');
    assert(s[p[2]] == '/');
    assert(parts[0] == s.subrange(0, p[0]));
    assert(parts[1] == s.subrange(p[0] + 1, p[1]));
    assert(parts[2] == s.subrange(p[1] + 1, p[2]));
    assert(parts[3] == s.subrange(p[2] + 1, s.len() as int));
    assert(parts[0] + "/"@ + parts[1] + "/"@ + parts[2] + "/"@ + parts[3] =~= s);
    assert forall|k: int, j: int| 0 <= k < 4 && 0 <= j < parts[k].len() implies #[trigger] parts[k][j] != '/' by {
        let lo = if k == 0 {
            0
        } else {
            p[k - 1] + 1
        };
        let hi = if k == 3 {
            s.len() as int
        } else {
            p[k]
        };
        assert(parts[k] == s.subrange(lo, hi));
        let i = lo + j;
        assert(parts[k][j] == s[i]);
        if s[i] == '/' {
            assert(p.contains(i));
            let m = choose|m: int| 0 <= m < p.len() && p[m] == i;
            assert(p[m] == i);
        }
    }
}

/// The parts that make up a harness name.
pub struct HarnessName<'a> {
    instruction: &'a str,
    method: &'a str,
    chip: &'a str,
    ty: &'a str,
}

impl<'a> View for HarnessName<'a> {
    type V = (Seq<char>, Seq<char>, Seq<char>, Seq<char>);

    closed spec fn view(&self) -> (Seq<char>, Seq<char>, Seq<char>, Seq<char>) {
        (self.instruction@, self.method@, self.chip@, self.ty@)
    }
}

impl<'a> HarnessName<'a> {
    pub fn instruction(&self) -> (r: &'a str)
        ensures
            r@ == self@.0,
    {
        self.instruction
    }

    pub fn method(&self) -> (r: &'a str)
        ensures
            r@ == self@.1,
    {
        self.method
    }

    pub fn chip(&self) -> (r: &'a str)
        ensures
            r@ == self@.2,
    {
        self.chip
    }

    pub fn ty(&self) -> (r: &'a str)
        ensures
            r@ == self@.3,
    {
        self.ty
    }

    /// Splits a harness name at its three `/` characters.
    pub fn from(value: &'a str) -> (r: HarnessName<'a>)
        requires
            split_slash(value@).len() == 4,
        ensures
            r@ == (
                split_slash(value@)[0],
                split_slash(value@)[1],
                split_slash(value@)[2],
                split_slash(value@)[3],
            ),
    {
        let n = value.unicode_len();
        let ghost s = value@;
        let mut positions: Vec<usize> = Vec::new();
        let mut i: usize = 0;
        while i < n
            invariant
                i <= n,
                n == s.len(),
                s == value@,
                positions@.map_values(|p: usize| p as int) == Seq::new(i as nat, |j: int| j).filter(is_slash_at(s)),
            decreases n - i,
        {
            proof {
                assert(Seq::new((i + 1) as nat, |j: int| j) =~= Seq::new(i as nat, |j: int| j).push(i as int));
                Seq::new(i as nat, |j: int| j).lemma_filter_push(i as int, is_slash_at(s));
            }
            if value.get_char(i) == '/' {
                let ghost before = positions@;
                positions.push(i);
                assert(positions@.map_values(|p: usize| p as int) =~= before.map_values(
                    |p: usize| p as int,
                ).push(i as int));
            }
            i += 1;
        }
        proof {
            assert(positions@.map_values(|p: usize| p as int) == slash_positions(s));
            lemma_positions_ordered(s);
        }
        let p0 = positions[0];
        let p1 = positions[1];
        let p2 = positions[2];
        assert(p0 as int == slash_positions(s)[0]);
        assert(p1 as int == slash_positions(s)[1]);
        assert(p2 as int == slash_positions(s)[2]);
        HarnessName {
            instruction: value.substring_char(0, p0),
            method: value.substring_char(p0 + 1, p1),
            chip: value.substring_char(p1 + 1, p2),
            ty: value.substring_char(p2 + 1, n),
        }
    }
}

/// Whether the character has the Unicode `White_Space` property, as
/// `char::is_whitespace` documents it: U+0009 to U+000D, U+0020, U+0085, U+00A0,
/// U+1680, U+2000 to U+200A, U+2028, U+2029, U+202F, U+205F and U+3000.
pub open spec fn char_is_whitespace(c: char) -> bool {
    let n = c as int;
    ||| 0x9 <= n <= 0xd
    ||| n == 0x20
    ||| n == 0x85
    ||| n == 0xa0
    ||| n == 0x1680
    ||| 0x2000 <= n <= 0x200a
    ||| n == 0x2028
    ||| n == 0x2029
    ||| n == 0x202f
    ||| n == 0x205f
    ||| n == 0x3000
}

/// Whether the character has the Unicode `White_Space` property, as `char::is_whitespace`
/// documents it.
pub fn is_whitespace(c: char) -> (r: bool)
    ensures
        r == char_is_whitespace(c),
{
    let n = c as u32;
    (0x9 <= n && n <= 0xd) || n == 0x20 || n == 0x85 || n == 0xa0 || n == 0x1680 || (0x2000 <= n
        && n <= 0x200a) || n == 0x2028 || n == 0x2029 || n == 0x202f || n == 0x205f || n == 0x3000
}

/// Whether some character of `s` is whitespace.
pub open spec fn has_whitespace(s: Seq<char>) -> bool {
    exists|i: int| 0 <= i < s.len() && char_is_whitespace(#[trigger] s[i])
}

/// An exact name as a query shows it: quoted where it holds whitespace, with a leading
/// `!` when negated.
pub open spec fn spec_exact(s: Seq<char>, neg: bool) -> Seq<char> {
    (if neg {
        "!"@
    } else {
        Seq::empty()
    }) + if has_whitespace(s) {
        "\""@ + s + "\""@
    } else {
        s
    }
}

fn exact(s: &str, neg: bool) -> (r: String)
    ensures
        r@ == spec_exact(s@, neg),
{
    let mut out = String::new();
    if neg {
        out.append("!");
    }
    let n = s.unicode_len();
    let mut has_ws = false;
    let mut i: usize = 0;
    while i < n
        invariant
            i <= n,
            n == s@.len(),
            has_ws == exists|j: int| 0 <= j < i && char_is_whitespace(#[trigger] s@[j]),
        decreases n - i,
    {
        if is_whitespace(s.get_char(i)) {
            has_ws = true;
        }
        i += 1;
    }
    if has_ws {
        out.append("\"");
    }
    out.append(s);
    if has_ws {
        out.append("\"");
    }
    proof {
        assert(out@ =~= spec_exact(s@, neg));
    }
    out
}

/// Query expression
pub enum QueryPart {
    Exact(String),
    Negated(String),
    Wildcard,
    Or(Vec<QueryPart>),
    And(Vec<QueryPart>),
}

/// The parts shown one after the other, separated by `sep`, each of the compound ones
/// in parentheses; `k` counts how many of the first parts are shown.
pub open spec fn render_parts(parts: Seq<QueryPart>, sep: Seq<char>, k: nat) -> Seq<char>
    decreases parts, k,
{
    if k == 0 || k > parts.len() {
        Seq::empty()
    } else {
        let p = parts[k - 1];
        render_parts(parts, sep, (k - 1) as nat) + (if k > 1 {
            sep
        } else {
            Seq::empty()
        }) + if p.spec_needs_parens() {
            "("@ + p.spec_render() + ")"@
        } else {
            p.spec_render()
        }
    }
}

impl QueryPart {
    /// Whether the part of a harness name satisfies the query expression.
    pub open spec fn spec_matches(self, part: Seq<char>) -> bool
        decreases self,
    {
        match self {
            QueryPart::Exact(s) => s@ == part,
            QueryPart::Negated(s) => s@ != part,
            QueryPart::Wildcard => true,
            QueryPart::Or(ops) => exists|i: int|
                0 <= i < ops.len() && (#[trigger] ops@[i]).spec_matches(part),
            QueryPart::And(ops) => forall|i: int|
                0 <= i < ops.len() ==> (#[trigger] ops@[i]).spec_matches(part),
        }
    }

    pub open spec fn spec_needs_parens(self) -> bool {
        self is Or || self is And
    }

    /// The query expression as it is shown: `*` for the wildcard, `|` between the
    /// alternatives and `&` between the conditions.
    pub open spec fn spec_render(self) -> Seq<char>
        decreases self, 0nat,
    {
        match self {
            QueryPart::Exact(s) => spec_exact(s@, false),
            QueryPart::Negated(s) => spec_exact(s@, true),
            QueryPart::Wildcard => "*"@,
            QueryPart::Or(parts) => render_parts(parts@, "|"@, parts@.len()),
            QueryPart::And(parts) => render_parts(parts@, "&"@, parts@.len()),
        }
    }

    /// Whether the part of a harness name satisfies the query expression.
    #[verifier::loop_isolation(false)]
    pub fn matches(&self, part: &str) -> (r: bool)
        ensures
            r == self.spec_matches(part@),
        decreases self,
    {
        match self {
            QueryPart::Exact(s) => str_eq(s.as_str(), part),
            QueryPart::Negated(s) => !str_eq(s.as_str(), part),
            QueryPart::Wildcard => true,
            QueryPart::Or(ops) => {
                let mut i: usize = 0;
                while i < ops.len()
                    invariant
                        i <= ops.len(),
                        forall|j: int| 0 <= j < i ==> !(#[trigger] ops@[j]).spec_matches(part@),
                    decreases ops.len() - i,
                {
                    proof {
                        assert(decreases_to!(*ops => ops@));
                        assert(decreases_to!(ops@ => ops@[i as int]));
                    }
                    if ops[i].matches(part) {
                        return true;
                    }
                    i += 1;
                }
                false
            },
            QueryPart::And(ops) => {
                let mut i: usize = 0;
                while i < ops.len()
                    invariant
                        i <= ops.len(),
                        forall|j: int| 0 <= j < i ==> (#[trigger] ops@[j]).spec_matches(part@),
                    decreases ops.len() - i,
                {
                    proof {
                        assert(decreases_to!(*ops => ops@));
                        assert(decreases_to!(ops@ => ops@[i as int]));
                    }
                    if !ops[i].matches(part) {
                        return false;
                    }
                    i += 1;
                }
                true
            },
        }
    }

    pub fn needs_parens(&self) -> (r: bool)
        ensures
            r == self.spec_needs_parens(),
    {
        match self {
            QueryPart::Or(_) | QueryPart::And(_) => true,
            _ => false,
        }
    }

    /// The query expression as text.
    pub fn render(&self) -> (r: String)
        ensures
            r@ == self.spec_render(),
        decreases self,
    {
        match self {
            QueryPart::Exact(s) => exact(s.as_str(), false),
            QueryPart::Negated(s) => exact(s.as_str(), true),
            QueryPart::Wildcard => String::from_str("*"),
            QueryPart::Or(parts) => interleave(parts, "|"),
            QueryPart::And(parts) => interleave(parts, "&"),
        }
    }
}

/// Shows the parts separated by `sep`, the compound ones in parentheses.
pub fn interleave(parts: &Vec<QueryPart>, sep: &str) -> (r: String)
    ensures
        r@ == render_parts(parts@, sep@, parts.len() as nat),
    decreases parts,
{
    let mut out = String::new();
    let mut n: usize = 0;
    while n < parts.len()
        invariant
            n <= parts.len(),
            out@ == render_parts(parts@, sep@, n as nat),
        decreases parts.len() - n,
    {
        if n > 0 {
            out.append(sep);
        }
        let parens = parts[n].needs_parens();
        if parens {
            out.append("(");
        }
        let shown = parts[n].render();
        out.append(shown.as_str());
        if parens {
            out.append(")");
        }
        n += 1;
        proof {
            assert(out@ =~= render_parts(parts@, sep@, n as nat));
        }
    }
    out
}

/// Whether `p` is the alternative of the exact names, in order.
pub open spec fn is_exact_or(p: QueryPart, names: Seq<Seq<char>>) -> bool {
    p matches QueryPart::Or(v) && v@.len() == names.len() && forall|i: int|
        0 <= i < names.len() ==> (#[trigger] v@[i] matches QueryPart::Exact(s) && s@ == names[i])
}

/// Whether the name is one of the names.
pub open spec fn one_of(names: Seq<Seq<char>>, p: Seq<char>) -> bool {
    exists|i: int| 0 <= i < names.len() && #[trigger] names[i] == p
}

/// The method part of a query: the whitelist's names as an alternative, when there are
/// any, then each blacklisted name negated, all of it a conjunction.
pub open spec fn is_method_part(p: QueryPart, whitelist: Seq<Seq<char>>, blacklist: Seq<Seq<char>>) -> bool {
    if whitelist.len() == 0 && blacklist.len() == 0 {
        p is Wildcard
    } else {
        let off: int = if whitelist.len() > 0 {
            1
        } else {
            0
        };
        p matches QueryPart::And(v) && v@.len() == off + blacklist.len() && (whitelist.len() > 0
            ==> is_exact_or(v@[0], whitelist)) && forall|j: int|
            0 <= j < blacklist.len() ==> (#[trigger] v@[off + j] matches QueryPart::Negated(s)
                && s@ == blacklist[j])
    }
}

fn exact_or(names: &Vec<String>) -> (r: QueryPart)
    ensures
        is_exact_or(r, crate::text::string_views(names@)),
        forall|p: Seq<char>| #[trigger] r.spec_matches(p) <==> one_of(crate::text::string_views(names@), p),
{
    let mut v: Vec<QueryPart> = Vec::new();
    let mut i: usize = 0;
    let ghost nv = crate::text::string_views(names@);
    while i < names.len()
        invariant
            i <= names.len(),
            nv == crate::text::string_views(names@),
            v@.len() == i,
            forall|k: int| 0 <= k < i ==> (#[trigger] v@[k] matches QueryPart::Exact(s) && s@ == nv[k]),
        decreases names.len() - i,
    {
        v.push(QueryPart::Exact(names[i].clone()));
        i += 1;
    }
    let ghost vs = v@;
    let r = QueryPart::Or(v);
    proof {
        reveal_with_fuel(QueryPart::spec_matches, 2);
        assert(r->Or_0@ == vs);
        assert forall|p: Seq<char>| #[trigger] r.spec_matches(p) <==> one_of(nv, p) by {
            if r.spec_matches(p) {
                let k = choose|k: int| 0 <= k < vs.len() && (#[trigger] vs[k]).spec_matches(p);
                assert(vs[k] matches QueryPart::Exact(s) && s@ == nv[k]);
                assert(nv[k] == p);
            }
            if one_of(nv, p) {
                let k = choose|k: int| 0 <= k < nv.len() && #[trigger] nv[k] == p;
                assert(vs[k] matches QueryPart::Exact(s) && s@ == nv[k]);
                assert(vs[k].spec_matches(p));
            }
        }
    }
    r
}

impl QueryPart {
    /// Any of the instructions, or anything when there is none.
    pub fn new_instructions_part(instructions: &Vec<String>) -> (r: QueryPart)
        ensures
            instructions.len() == 0 ==> r is Wildcard,
            instructions.len() > 0 ==> is_exact_or(r, crate::text::string_views(instructions@)),
            forall|p: Seq<char>|
                #[trigger] r.spec_matches(p) <==> (instructions.len() == 0 || one_of(
                    crate::text::string_views(instructions@),
                    p,
                )),
    {
        if instructions.len() == 0 {
            QueryPart::Wildcard
        } else {
            exact_or(instructions)
        }
    }

    /// Exactly the key, or anything when there is none.
    pub fn new_part(key: Option<&str>) -> (r: QueryPart)
        ensures
            match key {
                None => r is Wildcard,
                Some(k) => r matches QueryPart::Exact(s) && s@ == k@,
            },
            forall|p: Seq<char>|
                #[trigger] r.spec_matches(p) <==> match key {
                    None => true,
                    Some(k) => k@ == p,
                },
    {
        match key {
            Some(k) => QueryPart::Exact(k.to_owned()),
            None => QueryPart::Wildcard,
        }
    }

    /// One of the whitelisted methods, when there are any, and none of the blacklisted.
    pub fn new_method_part(whitelist: &Vec<String>, blacklist: &Vec<String>) -> (r: QueryPart)
        ensures
            is_method_part(r, crate::text::string_views(whitelist@), crate::text::string_views(blacklist@)),
            forall|p: Seq<char>|
                #[trigger] r.spec_matches(p) <==> ((whitelist.len() == 0 || one_of(
                    crate::text::string_views(whitelist@),
                    p,
                )) && !one_of(crate::text::string_views(blacklist@), p)),
    {
        let ghost wv = crate::text::string_views(whitelist@);
        let ghost bv = crate::text::string_views(blacklist@);
        if whitelist.len() == 0 && blacklist.len() == 0 {
            return QueryPart::Wildcard;
        }
        let mut parts: Vec<QueryPart> = Vec::new();
        let off: usize = if whitelist.len() > 0 {
            parts.push(exact_or(whitelist));
            1
        } else {
            0
        };
        let mut j: usize = 0;
        while j < blacklist.len()
            invariant
                j <= blacklist.len(),
                off == (if whitelist.len() > 0 {
                    1usize
                } else {
                    0usize
                }),
                bv == crate::text::string_views(blacklist@),
                wv == crate::text::string_views(whitelist@),
                parts@.len() == off + j,
                whitelist.len() > 0 ==> is_exact_or(parts@[0], wv) && forall|p: Seq<char>|
                    #[trigger] parts@[0].spec_matches(p) <==> one_of(wv, p),
                forall|k: int|
                    0 <= k < j ==> (#[trigger] parts@[off + k] matches QueryPart::Negated(s) && s@
                        == bv[k]),
            decreases blacklist.len() - j,
        {
            parts.push(QueryPart::Negated(blacklist[j].clone()));
            j += 1;
        }
        let ghost ps = parts@;
        let r = QueryPart::And(parts);
        proof {
            reveal_with_fuel(QueryPart::spec_matches, 2);
            assert(r->And_0@ == ps);
            assert forall|p: Seq<char>| #[trigger] r.spec_matches(p) <==> ((whitelist.len() == 0
                || one_of(wv, p)) && !one_of(bv, p)) by {
                if r.spec_matches(p) {
                    if whitelist.len() > 0 {
                        assert(ps[0].spec_matches(p));
                    }
                    if one_of(bv, p) {
                        let k = choose|k: int| 0 <= k < bv.len() && #[trigger] bv[k] == p;
                        assert(ps[off + k].spec_matches(p));
                    }
                }
                if (whitelist.len() == 0 || one_of(wv, p)) && !one_of(bv, p) {
                    assert forall|i: int| 0 <= i < ps.len() implies (#[trigger] ps[i]).spec_matches(p) by {
                        if i >= off {
                            let k = i - off;
                            assert(ps[off + k] matches QueryPart::Negated(s) && s@ == bv[k]);
                            if bv[k] == p {
                                assert(one_of(bv, p));
                            }
                        }
                    }
                }
            }
        }
        r
    }
}

/// The complete query with the 4 parts.
pub struct Query {
    instruction: QueryPart,
    method: QueryPart,
    chip: QueryPart,
    ty: QueryPart,
}

/// The selection that the command line's filters make: a harness name's parts pass when
/// the instruction is one of those asked for (or none was), the method is whitelisted
/// (or no whitelist was given) and not blacklisted, and the chip and the type are those
/// asked for (or none was).
pub open spec fn selects(
    instructions: Seq<Seq<char>>,
    chip: Option<Seq<char>>,
    ty: Option<Seq<char>>,
    whitelist: Seq<Seq<char>>,
    blacklist: Seq<Seq<char>>,
    name: (Seq<char>, Seq<char>, Seq<char>, Seq<char>),
) -> bool {
    &&& (instructions.len() == 0 || one_of(instructions, name.0))
    &&& (whitelist.len() == 0 || one_of(whitelist, name.1))
    &&& !one_of(blacklist, name.1)
    &&& match chip {
        None => true,
        Some(c) => c == name.2,
    }
    &&& match ty {
        None => true,
        Some(t) => t == name.3,
    }
}

impl Query {
    /// The four parts: instruction, method, chip and type.
    pub closed spec fn parts(&self) -> (QueryPart, QueryPart, QueryPart, QueryPart) {
        (self.instruction, self.method, self.chip, self.ty)
    }

    /// Whether a harness name's parts satisfy the query.
    pub open spec fn spec_matches(&self, name: (Seq<char>, Seq<char>, Seq<char>, Seq<char>)) -> bool {
        &&& self.parts().0.spec_matches(name.0)
        &&& self.parts().1.spec_matches(name.1)
        &&& self.parts().2.spec_matches(name.2)
        &&& self.parts().3.spec_matches(name.3)
    }

    /// Whether the harness name, with its four parts, satisfies the query.
    pub fn matches(&self, name: &str) -> (r: bool)
        requires
            split_slash(name@).len() == 4,
        ensures
            r == self.spec_matches(
                (split_slash(name@)[0], split_slash(name@)[1], split_slash(name@)[2], split_slash(name@)[3]),
            ),
    {
        let name = HarnessName::from(name);
        self.instruction.matches(name.instruction()) && self.method.matches(name.method())
            && self.chip.matches(name.chip()) && self.ty.matches(name.ty())
    }

    /// Constructs a query from the command line's filters.
    pub fn new(
        instructions: &Vec<String>,
        chip: Option<Chip>,
        ty: Option<Type>,
        whitelist: &Vec<String>,
        blacklist: &Vec<String>,
    ) -> (r: Query)
        ensures
            instructions.len() == 0 ==> r.parts().0 is Wildcard,
            instructions.len() > 0 ==> is_exact_or(r.parts().0, crate::text::string_views(instructions@)),
            is_method_part(r.parts().1, crate::text::string_views(whitelist@), crate::text::string_views(blacklist@)),
            match chip {
                None => r.parts().2 is Wildcard,
                Some(c) => r.parts().2 matches QueryPart::Exact(s) && s@ == c.spec_name(false),
            },
            match ty {
                None => r.parts().3 is Wildcard,
                Some(t) => r.parts().3 matches QueryPart::Exact(s) && s@ == t.spec_name(),
            },
            forall|name: (Seq<char>, Seq<char>, Seq<char>, Seq<char>)|
                #[trigger] r.spec_matches(name) <==> selects(
                    crate::text::string_views(instructions@),
                    match chip {
                        None => None,
                        Some(c) => Some(c.spec_name(false)),
                    },
                    match ty {
                        None => None,
                        Some(t) => Some(t.spec_name()),
                    },
                    crate::text::string_views(whitelist@),
                    crate::text::string_views(blacklist@),
                    name,
                ),
    {
        let chip_name = match chip {
            Some(c) => Some(c.name(false)),
            None => None,
        };
        let ty_name = match ty {
            Some(t) => Some(t.name()),
            None => None,
        };
        Query {
            instruction: QueryPart::new_instructions_part(instructions),
            method: QueryPart::new_method_part(whitelist, blacklist),
            chip: QueryPart::new_part(chip_name),
            ty: QueryPart::new_part(ty_name),
        }
    }

    /// The query as text: the four parts separated by `/`.
    pub fn render(&self) -> (r: String)
        ensures
            r@ == self.parts().0.spec_render() + "/"@ + self.parts().1.spec_render() + "/"@
                + self.parts().2.spec_render() + "/"@ + self.parts().3.spec_render(),
    {
        let mut out = self.instruction.render();
        out.append("/");
        let m = self.method.render();
        out.append(m.as_str());
        out.append("/");
        let c = self.chip.render();
        out.append(c.as_str());
        out.append("/");
        let t = self.ty.render();
        out.append(t.as_str());
        out
    }
}

} // verus!
