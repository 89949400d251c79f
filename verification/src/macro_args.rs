//! Parsing of compact marker literals of the form
//! `<package>.<record>.<field>` or `<package>.<record>.{f1, f2}`: each
//! literal expands into pairs of a qualified record name and one required
//! field name, and the pairs are grouped by record name in first-appearance
//! order.

use vstd::prelude::*;
use vstd::assert_seqs_equal;

use crate::paths::join_dots_spec;

verus! {

// ---------------------------------------------------------------------------
// Splitting and trimming, denotationally
// ---------------------------------------------------------------------------

/// Index of the first occurrence of `c` in `s`, or -1.
pub open spec fn find_char_spec(s: Seq<char>, c: char) -> int
    decreases s.len(),
{
    if s.len() == 0 {
        -1
    } else if s[0] == c {
        0
    } else {
        let r = find_char_spec(s.drop_first(), c);
        if r < 0 {
            -1
        } else {
            r + 1
        }
    }
}

pub proof fn lemma_find_char(s: Seq<char>, c: char)
    ensures
        find_char_spec(s, c) == -1 ==> forall|k: int| 0 <= k < s.len() ==> s[k] != c,
        find_char_spec(s, c) != -1 ==> {
            &&& 0 <= find_char_spec(s, c) < s.len()
            &&& s[find_char_spec(s, c)] == c
            &&& forall|k: int| 0 <= k < find_char_spec(s, c) ==> s[k] != c
        },
    decreases s.len(),
{
    if s.len() > 0 && s[0] != c {
        let tail = s.drop_first();
        lemma_find_char(tail, c);
        let r = find_char_spec(tail, c);
        if r == -1 {
            assert forall|k: int| 0 <= k < s.len() implies s[k] != c by {
                if k > 0 {
                    assert(tail[k - 1] == s[k]);
                }
            }
        } else {
            assert(s[r + 1] == tail[r]);
            assert forall|k: int| 0 <= k < r + 1 implies s[k] != c by {
                if k > 0 {
                    assert(tail[k - 1] == s[k]);
                }
            }
        }
    }
}

/// The pieces of `s` split on `c`; empty pieces are kept, and a string
/// without the separator is one piece.
pub open spec fn split_char_spec(s: Seq<char>, c: char) -> Seq<Seq<char>>
    decreases s.len(),
{
    let i = find_char_spec(s, c);
    if i < 0 {
        seq![s]
    } else if 0 <= i < s.len() {
        seq![s.subrange(0, i)] + split_char_spec(s.subrange(i + 1, s.len() as int), c)
    } else {
        seq![s]
    }
}

/// The count of leading space characters.
pub open spec fn leading_spaces(s: Seq<char>) -> int
    decreases s.len(),
{
    if s.len() == 0 {
        0
    } else if is_space_char(s[0]) {
        1 + leading_spaces(s.drop_first())
    } else {
        0
    }
}

/// The count of trailing space characters.
pub open spec fn trailing_spaces(s: Seq<char>) -> int
    decreases s.len(),
{
    if s.len() == 0 {
        0
    } else if is_space_char(s.last()) {
        1 + trailing_spaces(s.drop_last())
    } else {
        0
    }
}

/// The whitespace the trimming recognizes.
pub open spec fn is_space_char(c: char) -> bool {
    c == ' ' || c == '\t' || c == '\n' || c == '\r'
}

pub proof fn lemma_leading_spaces(s: Seq<char>)
    ensures
        0 <= leading_spaces(s) <= s.len(),
        forall|k: int| 0 <= k < leading_spaces(s) ==> is_space_char(s[k]),
        leading_spaces(s) < s.len() ==> !is_space_char(s[leading_spaces(s)]),
    decreases s.len(),
{
    if s.len() > 0 && is_space_char(s[0]) {
        let tail = s.drop_first();
        lemma_leading_spaces(tail);
        assert forall|k: int| 0 <= k < leading_spaces(s) implies is_space_char(s[k]) by {
            if k > 0 {
                assert(tail[k - 1] == s[k]);
            }
        }
        if leading_spaces(s) < s.len() {
            assert(tail[leading_spaces(tail)] == s[leading_spaces(s)]);
        }
    }
}

pub proof fn lemma_trailing_spaces(s: Seq<char>)
    ensures
        0 <= trailing_spaces(s) <= s.len(),
        forall|k: int| s.len() - trailing_spaces(s) <= k < s.len() ==> is_space_char(#[trigger] s[k]),
        trailing_spaces(s) < s.len() ==> !is_space_char(s[s.len() - trailing_spaces(s) - 1]),
    decreases s.len(),
{
    if s.len() > 0 && is_space_char(s.last()) {
        let front = s.drop_last();
        lemma_trailing_spaces(front);
        assert forall|k: int|
            s.len() - trailing_spaces(s) <= k < s.len() implies is_space_char(#[trigger] s[k]) by {
            if k < s.len() - 1 {
                assert(front[k] == s[k]);
            }
        }
        if trailing_spaces(s) < s.len() {
            assert(front[front.len() - trailing_spaces(front) - 1] == s[s.len() - trailing_spaces(
                s,
            ) - 1]);
        }
    }
}

/// `s` with leading and trailing whitespace removed.
pub open spec fn trim_spec(s: Seq<char>) -> Seq<char> {
    if leading_spaces(s) == s.len() {
        Seq::empty()
    } else {
        s.subrange(leading_spaces(s), s.len() - trailing_spaces(s))
    }
}

// ---------------------------------------------------------------------------
// Executable splitting and trimming
// ---------------------------------------------------------------------------

/// The index of the first occurrence of `c` at or after `from`, if any.
#[verifier::loop_isolation(false)]
fn find_char_from(s: &str, n: usize, from: usize, c: char) -> (r: Option<usize>)
    requires
        n == s@.len(),
        from <= n,
    ensures
        match r {
            Some(j) => from <= j < n && s@[j as int] == c && forall|k: int|
                from <= k < j ==> s@[k] != c,
            None => forall|k: int| from <= k < n ==> s@[k] != c,
        },
{
    let mut j: usize = from;
    while j < n
        invariant
            from <= j <= n,
            forall|k: int| from <= k < j ==> s@[k] != c,
        decreases n - j,
    {
        if s.get_char(j) == c {
            return Some(j);
        }
        j = j + 1;
    }
    None
}

/// Appends the pieces of `s@[from..]` split on `c` to `out`.
fn split_from(s: &str, n: usize, from: usize, c: char, out: &mut Vec<String>)
    requires
        n == s@.len(),
        from <= n,
    ensures
        final(out).deep_view() == old(out).deep_view() + split_char_spec(
            s@.subrange(from as int, n as int),
            c,
        ),
    decreases n - from,
{
    let ghost piece = s@.subrange(from as int, n as int);
    proof {
        lemma_find_char(piece, c);
    }
    match find_char_from(s, n, from, c) {
        Option::None => {
            proof {
                assert forall|k: int| 0 <= k < piece.len() implies piece[k] != c by {
                    assert(piece[k] == s@[from + k]);
                }
                assert(find_char_spec(piece, c) == -1);
            }
            let head = s.substring_char(from, n).to_owned();
            let ghost mid = out.deep_view();
            out.push(head);
            proof {
                assert forall|k: int| 0 <= k < mid.len() implies out.deep_view()[k] == mid[k] by {}
                assert(out.deep_view()[mid.len() as int] == piece);
                assert(out.deep_view() =~= mid.push(piece));
                assert(mid.push(piece) =~= mid + seq![piece]);
                assert(split_char_spec(piece, c) == seq![piece]);
            }
        }
        Option::Some(j) => {
            proof {
                let i = j - from;
                assert(piece[i] == c);
                assert forall|k: int| 0 <= k < i implies piece[k] != c by {
                    assert(piece[k] == s@[from + k]);
                }
                assert(find_char_spec(piece, c) == i);
            }
            let head = s.substring_char(from, j).to_owned();
            let ghost mid = out.deep_view();
            let ghost i = j - from;
            out.push(head);
            proof {
                assert forall|k: int| 0 <= k < mid.len() implies out.deep_view()[k] == mid[k] by {}
                assert(out.deep_view()[mid.len() as int] == s@.subrange(from as int, j as int));
                assert(s@.subrange(from as int, j as int) =~= piece.subrange(0, i));
                assert(out.deep_view() =~= mid.push(piece.subrange(0, i)));
            }
            split_from(s, n, j + 1, c, out);
            proof {
                let tail = s@.subrange(j + 1, n as int);
                assert(tail =~= piece.subrange(i + 1, piece.len() as int));
                let rest = split_char_spec(piece.subrange(i + 1, piece.len() as int), c);
                assert(out.deep_view() == mid.push(piece.subrange(0, i)) + rest);
                assert(mid.push(piece.subrange(0, i)) + rest =~= mid + (seq![
                    piece.subrange(0, i),
                ] + rest));
            }
        }
    }
}

/// The pieces of `s` split on `c`, as owned strings.
pub fn split_string(s: &str, c: char) -> (r: Vec<String>)
    ensures
        r.deep_view() == split_char_spec(s@, c),
{
    let n = s.unicode_len();
    let mut out: Vec<String> = Vec::new();
    proof {
        assert(out.deep_view() =~= Seq::<Seq<char>>::empty());
        assert(s@.subrange(0, n as int) =~= s@);
        assert(Seq::<Seq<char>>::empty() + split_char_spec(s@, c) =~= split_char_spec(s@, c));
    }
    split_from(s, n, 0, c, &mut out);
    out
}

/// Whether the character counts as whitespace for trimming.
fn is_space(c: char) -> (r: bool)
    ensures
        r == is_space_char(c),
{
    c == ' ' || c == '\t' || c == '\n' || c == '\r'
}

/// `s` with leading and trailing whitespace removed.
#[verifier::loop_isolation(false)]
pub fn trim_string(s: &str) -> (r: String)
    ensures
        r@ == trim_spec(s@),
{
    let n = s.unicode_len();
    proof {
        lemma_leading_spaces(s@);
        lemma_trailing_spaces(s@);
    }
    let mut a: usize = 0;
    while a < n && is_space(s.get_char(a))
        invariant
            a <= n,
            forall|k: int| 0 <= k < a ==> is_space_char(s@[k]),
        decreases n - a,
    {
        a = a + 1;
    }
    proof {
        let l = leading_spaces(s@);
        if a < l {
            assert(is_space_char(s@[a as int]));
            assert(false);
        }
        if l < a {
            assert(is_space_char(s@[l]));
            assert(false);
        }
        assert(a == l);
    }
    if a == n {
        proof {
            reveal_strlit("");
            assert(""@ =~= Seq::<char>::empty());
        }
        return String::from_str("");
    }
    let mut b: usize = n;
    while b > a && is_space(s.get_char(b - 1))
        invariant
            a <= b <= n,
            forall|k: int| b <= k < n ==> is_space_char(#[trigger] s@[k]),
        decreases b,
    {
        b = b - 1;
    }
    proof {
        let t = trailing_spaces(s@);
        let cut = n - t;
        if b < cut {
            assert(is_space_char(s@[b as int]));
            assert(false);
        }
        if cut < b {
            assert(b > a);
            assert(!is_space_char(s@[b - 1]));
            assert(cut <= b - 1 < n);
            assert(is_space_char(s@[b - 1]));
            assert(false);
        }
        assert(b == cut);
    }
    s.substring_char(a, b).to_owned()
}

// ---------------------------------------------------------------------------
// Marker literals
// ---------------------------------------------------------------------------

/// The parsed marker arguments: the mirror module name and, per qualified
/// record name in first-appearance order, the required field names.
#[derive(Debug, PartialEq)]
pub struct MacroArgs {
    pub mod_ident: String,
    pub affected_structs: Vec<(String, Vec<String>)>,
}

/// A malformed marker literal.
#[derive(Debug, PartialEq)]
pub enum MacroArgsError {
    /// Fewer than three dot-separated parts.
    BadLiteral(String),
    /// A field list opened with `{` but never closed with `}`.
    UnterminatedFieldList(String),
}

pub ghost enum MacroArgsErrorV {
    BadLiteral(Seq<char>),
    UnterminatedFieldList(Seq<char>),
}

impl View for MacroArgsError {
    type V = MacroArgsErrorV;

    open spec fn view(&self) -> MacroArgsErrorV {
        match self {
            MacroArgsError::BadLiteral(l) => MacroArgsErrorV::BadLiteral(l@),
            MacroArgsError::UnterminatedFieldList(l) => MacroArgsErrorV::UnterminatedFieldList(l@),
        }
    }
}

/// The models of a pair list.
pub open spec fn pairs_view(ps: Seq<(String, String)>) -> Seq<(Seq<char>, Seq<char>)> {
    Seq::new(ps.len(), |i: int| (ps[i].0@, ps[i].1@))
}

/// The models of a grouped list.
pub open spec fn groups_view(gs: Seq<(String, Vec<String>)>) -> Seq<(Seq<char>, Seq<Seq<char>>)> {
    Seq::new(gs.len(), |i: int| (gs[i].0@, gs[i].1.deep_view()))
}

/// The field names of one literal's last part: either the single name, or
/// the brace-enclosed comma-separated names, each trimmed.
pub open spec fn spec_parse_fields(f: Seq<char>) -> Result<Seq<Seq<char>>, MacroArgsErrorV> {
    if f.len() > 0 && f[0] == '{' {
        if f.len() >= 2 && f.last() == '}' {
            Ok(
                split_char_spec(f.subrange(1, f.len() - 1), ',').map_values(
                    |p: Seq<char>| trim_spec(p),
                ),
            )
        } else {
            Err(MacroArgsErrorV::UnterminatedFieldList(f))
        }
    } else {
        Ok(seq![f])
    }
}

/// The pairs one literal expands into: the dot-joined qualified name paired
/// with each of its field names. A literal with fewer than three parts is
/// malformed.
pub open spec fn spec_from_litstr(l: Seq<char>) -> Result<
    Seq<(Seq<char>, Seq<char>)>,
    MacroArgsErrorV,
> {
    let parts = split_char_spec(l, '.');
    if parts.len() < 3 {
        Err(MacroArgsErrorV::BadLiteral(l))
    } else {
        let fqn = join_dots_spec(parts.drop_last());
        match spec_parse_fields(parts.last()) {
            Err(e) => Err(e),
            Ok(fields) => Ok(fields.map_values(|f: Seq<char>| (fqn, f))),
        }
    }
}

/// The concatenated pairs of all literals, first malformed literal wins.
pub open spec fn spec_collect_pairs(ls: Seq<Seq<char>>) -> Result<
    Seq<(Seq<char>, Seq<char>)>,
    MacroArgsErrorV,
>
    decreases ls.len(),
{
    if ls.len() == 0 {
        Ok(Seq::empty())
    } else {
        match spec_from_litstr(ls[0]) {
            Err(e) => Err(e),
            Ok(head) => match spec_collect_pairs(ls.drop_first()) {
                Err(e) => Err(e),
                Ok(rest) => Ok(head + rest),
            },
        }
    }
}

/// Index of the group keyed by `fqn`, or -1.
pub open spec fn find_group_idx(gs: Seq<(Seq<char>, Seq<Seq<char>>)>, fqn: Seq<char>) -> int
    decreases gs.len(),
{
    if gs.len() == 0 {
        -1
    } else if gs[0].0 == fqn {
        0
    } else {
        let r = find_group_idx(gs.drop_first(), fqn);
        if r < 0 {
            -1
        } else {
            r + 1
        }
    }
}

pub proof fn lemma_find_group_idx(gs: Seq<(Seq<char>, Seq<Seq<char>>)>, fqn: Seq<char>)
    ensures
        find_group_idx(gs, fqn) == -1 ==> forall|k: int|
            0 <= k < gs.len() ==> (#[trigger] gs[k]).0 != fqn,
        find_group_idx(gs, fqn) != -1 ==> {
            &&& 0 <= find_group_idx(gs, fqn) < gs.len()
            &&& gs[find_group_idx(gs, fqn)].0 == fqn
            &&& forall|k: int| 0 <= k < find_group_idx(gs, fqn) ==> (#[trigger] gs[k]).0 != fqn
        },
    decreases gs.len(),
{
    if gs.len() > 0 && gs[0].0 != fqn {
        let tail = gs.drop_first();
        lemma_find_group_idx(tail, fqn);
        let r = find_group_idx(tail, fqn);
        if r == -1 {
            assert forall|k: int| 0 <= k < gs.len() implies (#[trigger] gs[k]).0 != fqn by {
                if k > 0 {
                    assert(tail[k - 1] == gs[k]);
                }
            }
        } else {
            assert(gs[r + 1] == tail[r]);
            assert forall|k: int| 0 <= k < r + 1 implies (#[trigger] gs[k]).0 != fqn by {
                if k > 0 {
                    assert(tail[k - 1] == gs[k]);
                }
            }
        }
    }
}

/// One pair folded into the groups: appended to its record's group, or
/// opening a new group at the end.
pub open spec fn group_insert(
    gs: Seq<(Seq<char>, Seq<Seq<char>>)>,
    fqn: Seq<char>,
    field: Seq<char>,
) -> Seq<(Seq<char>, Seq<Seq<char>>)> {
    let i = find_group_idx(gs, fqn);
    if 0 <= i < gs.len() {
        gs.update(i, (fqn, gs[i].1.push(field)))
    } else {
        gs.push((fqn, seq![field]))
    }
}

/// All pairs folded into groups, left to right.
pub open spec fn spec_group_pairs(
    gs: Seq<(Seq<char>, Seq<Seq<char>>)>,
    ps: Seq<(Seq<char>, Seq<char>)>,
) -> Seq<(Seq<char>, Seq<Seq<char>>)>
    decreases ps.len(),
{
    if ps.len() == 0 {
        gs
    } else {
        spec_group_pairs(group_insert(gs, ps[0].0, ps[0].1), ps.drop_first())
    }
}

/// What parsing a literal list yields: the grouped required-field markers.
pub open spec fn spec_macro_args_groups(ls: Seq<Seq<char>>) -> Result<
    Seq<(Seq<char>, Seq<Seq<char>>)>,
    MacroArgsErrorV,
> {
    match spec_collect_pairs(ls) {
        Err(e) => Err(e),
        Ok(ps) => Ok(spec_group_pairs(Seq::empty(), ps)),
    }
}

// ---------------------------------------------------------------------------
// Executable literal parsing
// ---------------------------------------------------------------------------

/// Splits a brace-enclosed, comma-separated field list, trimming each name.
fn parse_fields_multiple(field: String) -> (r: Result<Vec<String>, MacroArgsError>)
    requires
        field@.len() > 0,
        field@[0] == '{',
    ensures
        match r {
            Ok(fs) => spec_parse_fields(field@) == Ok::<Seq<Seq<char>>, MacroArgsErrorV>(
                fs.deep_view(),
            ),
            Err(e) => spec_parse_fields(field@) == Err::<Seq<Seq<char>>, MacroArgsErrorV>(e@),
        },
{
    let n = field.as_str().unicode_len();
    if n < 2 || !(field.as_str().get_char(n - 1) == '}') {
        return Err(MacroArgsError::UnterminatedFieldList(field));
    }
    let inner = field.as_str().substring_char(1, n - 1);
    let raw = split_string(inner, ',');
    let ghost pieces = split_char_spec(field@.subrange(1, field@.len() - 1), ',');
    proof {
        assert(inner@ =~= field@.subrange(1, field@.len() - 1));
    }
    let mut out: Vec<String> = Vec::new();
    let mut k: usize = 0;
    #[verifier::loop_isolation(false)]
    while k < raw.len()
        invariant
            k <= raw.len(),
            raw.deep_view() == pieces,
            out@.len() == k,
            forall|t: int| 0 <= t < k ==> out.deep_view()[t] == trim_spec(pieces[t]),
        decreases raw.len() - k,
    {
        let trimmed = trim_string(raw[k].as_str());
        let ghost tv = trimmed@;
        let ghost prev = out.deep_view();
        let ghost prev_raw = out@;
        out.push(trimmed);
        proof {
            assert(raw[k as int]@ == pieces[k as int]);
            assert(tv == trim_spec(pieces[k as int]));
            assert_seqs_equal!(out.deep_view() == prev.push(tv), t => {
                if t < prev.len() {
                    assert(out@[t] == prev_raw[t]);
                } else {
                    assert(out@[t]@ == tv);
                }
            });
        }
        k = k + 1;
    }
    proof {
        assert(out.deep_view() =~= pieces.map_values(|p: Seq<char>| trim_spec(p)));
    }
    Ok(out)
}

/// The field names of a literal's last part; see `spec_parse_fields`.
fn parse_fields(field: String) -> (r: Result<Vec<String>, MacroArgsError>)
    ensures
        match r {
            Ok(fs) => spec_parse_fields(field@) == Ok::<Seq<Seq<char>>, MacroArgsErrorV>(
                fs.deep_view(),
            ),
            Err(e) => spec_parse_fields(field@) == Err::<Seq<Seq<char>>, MacroArgsErrorV>(e@),
        },
{
    let n = field.as_str().unicode_len();
    if n > 0 && field.as_str().get_char(0) == '{' {
        parse_fields_multiple(field)
    } else {
        let mut fs: Vec<String> = Vec::new();
        let ghost fv = field@;
        fs.push(field);
        proof {
            assert(fs.deep_view() =~= seq![fv]);
        }
        Ok(fs)
    }
}

impl MacroArgs {
    /// The pairs one literal expands into; see `spec_from_litstr`. For
    /// example `a.b.C.f` yields `[("a.b.C", "f")]`, and `a.b.C.{f, g}`
    /// yields `[("a.b.C", "f"), ("a.b.C", "g")]`.
    pub fn from_litstr(lit: &String) -> (r: Result<Vec<(String, String)>, MacroArgsError>)
        ensures
            match r {
                Ok(ps) => spec_from_litstr(lit@) == Ok::<
                    Seq<(Seq<char>, Seq<char>)>,
                    MacroArgsErrorV,
                >(pairs_view(ps@)),
                Err(e) => spec_from_litstr(lit@) == Err::<
                    Seq<(Seq<char>, Seq<char>)>,
                    MacroArgsErrorV,
                >(e@),
            },
    {
        let mut parts = split_string(lit.as_str(), '.');
        if parts.len() < 3 {
            return Err(MacroArgsError::BadLiteral(lit.clone()));
        }
        let ghost all_parts = parts.deep_view();
        let field_part = match parts.pop() {
            Option::Some(p) => p,
            Option::None => {
                // at least three parts were just checked for
                proof {
                    assert(false);
                }
                return Err(MacroArgsError::BadLiteral(lit.clone()));
            },
        };
        proof {
            assert(parts.deep_view() =~= all_parts.drop_last());
            assert(field_part@ == all_parts.last());
        }
        let fqn = crate::paths::join_dots(&parts);
        let fields = match parse_fields(field_part) {
            Ok(fs) => fs,
            Err(e) => {
                return Err(e);
            },
        };
        let ghost fieldsv = fields.deep_view();
        let ghost fqnv = fqn@;
        let mut pairs: Vec<(String, String)> = Vec::new();
        let mut k: usize = 0;
        #[verifier::loop_isolation(false)]
        while k < fields.len()
            invariant
                k <= fields.len(),
                pairs@.len() == k,
                forall|t: int|
                    0 <= t < k ==> (#[trigger] pairs_view(pairs@)[t]) == (fqnv, fieldsv[t]),
            decreases fields.len() - k,
        {
            let p0 = fqn.clone();
            let p1 = fields[k].clone();
            let ghost p0v = p0@;
            let ghost p1v = p1@;
            let ghost prev = pairs_view(pairs@);
            let ghost prev_raw = pairs@;
            pairs.push((p0, p1));
            proof {
                assert(p0v == fqnv);
                assert(p1v == fieldsv[k as int]);
                assert_seqs_equal!(pairs_view(pairs@) == prev.push((fqnv, fieldsv[k as int])), t => {
                    if t < prev.len() {
                        assert(pairs@[t] == prev_raw[t]);
                    } else {
                        assert(pairs@[t].0@ == fqnv);
                        assert(pairs@[t].1@ == fieldsv[k as int]);
                    }
                });
            }
            k = k + 1;
        }
        proof {
            assert(pairs_view(pairs@) =~= fieldsv.map_values(|f: Seq<char>| (fqnv, f)));
        }
        Ok(pairs)
    }

    /// Parses the whole marker: the mirror module name and the literal
    /// list, whose pairs are grouped by qualified record name in
    /// first-appearance order. The first malformed literal decides the
    /// error.
    pub fn parse(mod_ident: String, literals: &Vec<String>) -> (r: Result<
        MacroArgs,
        MacroArgsError,
    >)
        ensures
            match r {
                Ok(m) => spec_macro_args_groups(literals.deep_view()) == Ok::<
                    Seq<(Seq<char>, Seq<Seq<char>>)>,
                    MacroArgsErrorV,
                >(groups_view(m.affected_structs@)) && m.mod_ident@ == mod_ident@,
                Err(e) => spec_macro_args_groups(literals.deep_view()) == Err::<
                    Seq<(Seq<char>, Seq<Seq<char>>)>,
                    MacroArgsErrorV,
                >(e@),
            },
    {
        let mut pairs: Vec<(String, String)> = Vec::new();
        proof {
            assert(literals.deep_view().skip(0) =~= literals.deep_view());
            assert(pairs_view(Seq::<(String, String)>::empty()) =~= Seq::<
                (Seq<char>, Seq<char>),
            >::empty());
        }
        match collect_pairs_from(literals, 0, &mut pairs) {
            Err(e) => {
                return Err(e);
            },
            Ok(_) => {
            }
        }
        proof {
            assert(Seq::<(Seq<char>, Seq<char>)>::empty() + spec_collect_pairs(
                literals.deep_view(),
            )->Ok_0 =~= spec_collect_pairs(literals.deep_view())->Ok_0);
        }
        let groups = group_pairs(&pairs);
        Ok(MacroArgs { mod_ident, affected_structs: groups })
    }
}


/// Folds the pairs into groups keyed by qualified record name, in
/// first-appearance order.
#[verifier::loop_isolation(false)]
fn group_pairs(pairs: &Vec<(String, String)>) -> (groups: Vec<(String, Vec<String>)>)
    ensures
        groups_view(groups@) == spec_group_pairs(Seq::empty(), pairs_view(pairs@)),
{
    let ghost all_pairs = pairs_view(pairs@);
    let mut groups: Vec<(String, Vec<String>)> = Vec::new();
    let mut k: usize = 0;
    proof {
        assert(groups_view(groups@) =~= Seq::<(Seq<char>, Seq<Seq<char>>)>::empty());
        assert(all_pairs.skip(0) =~= all_pairs);
    }
    while k < pairs.len()
        invariant
            k <= pairs.len(),
            spec_group_pairs(Seq::empty(), all_pairs) == spec_group_pairs(
                groups_view(groups@),
                all_pairs.skip(k as int),
            ),
        decreases pairs.len() - k,
    {
        let ghost gs0 = groups_view(groups@);
        let ghost suffix = all_pairs.skip(k as int);
        proof {
            assert(suffix[0] == all_pairs[k as int]);
            assert(suffix.drop_first() =~= all_pairs.skip(k as int + 1));
            lemma_find_group_idx(gs0, all_pairs[k as int].0);
        }
        let fqn = &pairs[k].0;
        let field = &pairs[k].1;
        match find_group(&groups, fqn) {
            Option::Some(j) => {
                proof {
                    assert(find_group_idx(gs0, fqn@) == j as int);
                }
                let mut entry = groups.remove(j);
                let ghost entryv = (entry.0@, entry.1.deep_view());
                let f2 = field.clone();
                let ghost f2v = f2@;
                entry.1.push(f2);
                proof {
                    assert forall|t: int|
                        0 <= t < entryv.1.len() implies entry.1.deep_view()[t] == entryv.1[t] by {}
                    assert(entry.1.deep_view()[entryv.1.len() as int] == field@);
                    assert(entry.1.deep_view() =~= entryv.1.push(field@));
                }
                groups.insert(j, entry);
                proof {
                    assert(groups_view(groups@) =~= gs0.update(
                        j as int,
                        (fqn@, gs0[j as int].1.push(field@)),
                    ));
                }
            }
            Option::None => {
                proof {
                    assert(find_group_idx(gs0, fqn@) == -1);
                }
                let mut fs: Vec<String> = Vec::new();
                fs.push(field.clone());
                proof {
                    assert(fs.deep_view() =~= seq![field@]);
                }
                groups.push((fqn.clone(), fs));
                proof {
                    assert(groups_view(groups@) =~= gs0.push((fqn@, seq![field@])));
                }
            }
        }
        k = k + 1;
    }
    proof {
        assert(all_pairs.skip(pairs@.len() as int) =~= Seq::<(Seq<char>, Seq<char>)>::empty());
    }
    groups
}

/// The index of the group keyed by `fqn`, if any.
#[verifier::loop_isolation(false)]
fn find_group(groups: &Vec<(String, Vec<String>)>, fqn: &String) -> (r: Option<usize>)
    ensures
        ({
            let i = find_group_idx(groups_view(groups@), fqn@);
            match r {
                Some(j) => i == j as int && 0 <= i < groups@.len(),
                None => i == -1,
            }
        }),
{
    proof {
        lemma_find_group_idx(groups_view(groups@), fqn@);
    }
    let ghost gs = groups_view(groups@);
    let mut j: usize = 0;
    while j < groups.len()
        invariant
            j <= groups.len(),
            forall|t: int| 0 <= t < j ==> (#[trigger] gs[t]).0 != fqn@,
        decreases groups.len() - j,
    {
        if groups[j].0 == *fqn {
            proof {
                assert(gs[j as int].0 == fqn@);
                assert(find_group_idx(gs, fqn@) == j as int);
            }
            return Some(j);
        }
        proof {
            assert(gs[j as int].0 != fqn@);
        }
        j = j + 1;
    }
    proof {
        assert(find_group_idx(gs, fqn@) == -1);
    }
    None
}

/// Expands the literals from position `i` on, appending their pairs to
/// `out`; stops at the first malformed literal.
fn collect_pairs_from(literals: &Vec<String>, i: usize, out: &mut Vec<(String, String)>) -> (r:
    Result<(), MacroArgsError>)
    requires
        i <= literals.len(),
    ensures
        match r {
            Ok(_) => spec_collect_pairs(literals.deep_view().skip(i as int)) matches Ok(ws)
                && pairs_view(final(out)@) == pairs_view(old(out)@) + ws,
            Err(e) => spec_collect_pairs(literals.deep_view().skip(i as int)) == Err::<
                Seq<(Seq<char>, Seq<char>)>,
                MacroArgsErrorV,
            >(e@),
        },
    decreases literals.len() - i,
{
    if i == literals.len() {
        proof {
            assert(literals.deep_view().skip(i as int) =~= Seq::<Seq<char>>::empty());
            assert(pairs_view(out@) + Seq::<(Seq<char>, Seq<char>)>::empty() =~= pairs_view(out@));
        }
        return Ok(());
    }
    let ghost s = literals.deep_view().skip(i as int);
    proof {
        assert(s[0] == literals.deep_view()[i as int]);
        assert(literals.deep_view()[i as int] == literals@[i as int]@);
        assert(s.drop_first() =~= literals.deep_view().skip(i as int + 1));
    }
    let head = match MacroArgs::from_litstr(&literals[i]) {
        Ok(ps) => ps,
        Err(e) => {
            return Err(e);
        },
    };
    let ghost headv = pairs_view(head@);
    let ghost mid = pairs_view(out@);
    let mut hs = head;
    let ghost hsv = pairs_view(hs@);
    let mut t: usize = 0;
    #[verifier::loop_isolation(false)]
    while t < hs.len()
        invariant
            t <= hs.len(),
            pairs_view(hs@) == hsv,
            pairs_view(out@) =~= mid + hsv.subrange(0, t as int),
        decreases hs.len() - t,
    {
        let p0 = hs[t].0.clone();
        let p1 = hs[t].1.clone();
        let ghost p0v = p0@;
        let ghost p1v = p1@;
        let ghost prev = pairs_view(out@);
        let ghost prev_raw = out@;
        out.push((p0, p1));
        proof {
            assert((p0v, p1v) == hsv[t as int]);
            assert_seqs_equal!(pairs_view(out@) == prev.push(hsv[t as int]), j => {
                if j < prev.len() {
                    assert(out@[j] == prev_raw[j]);
                } else {
                    assert(out@[j].0@ == hsv[t as int].0);
                    assert(out@[j].1@ == hsv[t as int].1);
                }
            });
            assert((mid + hsv.subrange(0, t as int)).push(hsv[t as int]) =~= mid + hsv.subrange(
                0,
                t as int + 1,
            ));
        }
        t = t + 1;
    }
    proof {
        assert(hsv.subrange(0, hs@.len() as int) =~= hsv);
    }
    match collect_pairs_from(literals, i + 1, out) {
        Err(e) => Err(e),
        Ok(u) => {
            proof {
                match spec_collect_pairs(s.drop_first()) {
                    Ok(rest) => {
                        assert(pairs_view(out@) == (mid + hsv) + rest);
                        assert((mid + hsv) + rest =~= mid + (hsv + rest));
                    }
                    Err(_) => {
                    }
                }
            }
            Ok(u)
        }
    }
}

} // verus!
