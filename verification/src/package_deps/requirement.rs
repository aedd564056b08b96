//! The grammar of one requirement: a package name, optional extras in square
//! brackets, a version constraint that begins with a comparison operator, and
//! an optional environment marker after a semicolon.
use crate::package_deps::models::{PackageRequirement, PackageRequirementView};
use crate::text::{
    append_chars, char_is_ascii_alphanumeric, contains_char, count_leading, from_chars, in_class,
    is_ascii_alphanumeric, leading, lemma_leading_bounds, lemma_leading_is, lemma_trailing_is,
    split, split_chars, strip_leading, strip_leading_chars, subrange, to_chars, trim, trim_chars,
    views, CharClass,
};
use vstd::prelude::*;

verus! {

/// The pieces of a requirement, as they stand in its text.
#[derive(Debug, Clone, PartialEq, Eq)]
pub struct RequirementParts {
    /// The package name.
    pub name: String,
    /// What stands between the square brackets, if there are any.
    pub extras: Option<String>,
    /// The comparison operator and the version that follows it.
    pub constraint: String,
    /// What follows the semicolon, without the white space before it.
    pub marker: Option<String>,
}

/// The pieces of a requirement as text.
pub struct RequirementPartsView {
    pub name: Seq<char>,
    pub extras: Option<Seq<char>>,
    pub constraint: Seq<char>,
    pub marker: Option<Seq<char>>,
}

impl View for RequirementParts {
    type V = RequirementPartsView;

    open spec fn view(&self) -> RequirementPartsView {
        RequirementPartsView {
            name: self.name@,
            extras: match self.extras {
                Some(e) => Some(e@),
                None => None,
            },
            constraint: self.constraint@,
            marker: match self.marker {
                Some(m) => Some(m@),
                None => None,
            },
        }
    }
}

/// The length of the package name that `line` begins with, if it begins with
/// one: the longest run of name characters, which has at least two
/// characters and begins and ends with a letter or digit.
pub open spec fn name_length(line: Seq<char>) -> Option<int> {
    let n = leading(line, CharClass::PackageName) as int;
    if 2 <= n <= line.len() && is_ascii_alphanumeric(line[0]) && is_ascii_alphanumeric(
        line[n - 1],
    ) {
        Some(n)
    } else {
        None
    }
}

/// The length of the bracketed extras that `rest` begins with, brackets
/// included: 0 if `rest` does not begin with `[`, and nothing if it does but
/// the brackets are empty or never closed.
pub open spec fn extras_length(rest: Seq<char>) -> Option<int> {
    let k = leading(rest.skip(1), CharClass::IsNot(']')) as int;
    if rest.len() == 0 || rest[0] != '[' {
        Some(0)
    } else if 1 <= k && k + 1 < rest.len() {
        Some(k + 2)
    } else {
        None
    }
}

/// Whether `rest` begins with one of the comparison operators `<`, `<=`, `>`,
/// `>=`, `==`, `!=`, `~=` and `===`.
pub open spec fn begins_with_operator(rest: Seq<char>) -> bool {
    rest.len() > 0 && (rest[0] == '<' || rest[0] == '>' || (rest.len() > 1 && rest[1] == '='
        && (rest[0] == '=' || rest[0] == '!' || rest[0] == '~')))
}

/// What follows the constraint: nothing, which gives no marker, or white
/// space, a semicolon, white space and a marker that runs to the end of the
/// line and holds no line feed. Anything else is no requirement.
pub open spec fn marker_of(rest: Seq<char>) -> Option<Option<Seq<char>>> {
    let after_space = strip_leading(rest, CharClass::Whitespace);
    let marker = strip_leading(after_space.skip(1), CharClass::Whitespace);
    if rest.len() == 0 {
        Some(None)
    } else if after_space.len() > 0 && after_space[0] == ';' && !marker.contains('\n') {
        Some(Some(marker))
    } else {
        None
    }
}

/// The pieces of the requirement that `line` is, if it is one.
pub open spec fn requirement_parts(line: Seq<char>) -> Option<RequirementPartsView> {
    match name_length(line) {
        None => None,
        Some(n) => match extras_length(line.skip(n)) {
            None => None,
            Some(e) => {
                let rest = line.skip(n + e);
                let c = leading(rest, CharClass::VersionSpec) as int;
                match marker_of(rest.skip(c)) {
                    Some(marker) if begins_with_operator(rest) => Some(
                        RequirementPartsView {
                            name: line.take(n),
                            extras: if e == 0 {
                                None
                            } else {
                                Some(line.subrange(n + 1, n + e - 1))
                            },
                            constraint: rest.take(c),
                            marker,
                        },
                    ),
                    _ => None,
                }
            },
        },
    }
}

/// The extras as they stand in the line: between square brackets, or not at
/// all.
pub open spec fn bracketed(extras: Option<Seq<char>>) -> Seq<char> {
    match extras {
        Some(e) => seq!['['] + e + seq![']'],
        None => seq![],
    }
}

/// The pieces of a requirement make up its line. The name, the bracketed
/// extras and the constraint follow one another from the start of the line.
/// Without a marker the line ends there. With one the line ends with the
/// marker, and between the constraint and the marker stands a semicolon with
/// nothing but white space around it.
pub proof fn lemma_parts_make_up_the_line(line: Seq<char>)
    requires
        requirement_parts(line) is Some,
    ensures
        ({
            let parts = requirement_parts(line)->0;
            let head = parts.name + bracketed(parts.extras) + parts.constraint;
            &&& head.is_prefix_of(line)
            &&& match parts.marker {
                None => line == head,
                Some(marker) => marker.is_suffix_of(line) && trim(
                    line.subrange(head.len() as int, line.len() - marker.len()),
                ) == seq![';'],
            }
        }),
{
    let parts = requirement_parts(line)->0;
    let n = name_length(line)->0;
    let e = extras_length(line.skip(n))->0;
    let rest = line.skip(n + e);
    let c = leading(rest, CharClass::VersionSpec) as int;
    let tail = rest.skip(c);
    let head = parts.name + bracketed(parts.extras) + parts.constraint;
    lemma_leading_bounds(rest, CharClass::VersionSpec);
    if e > 0 {
        lemma_leading_bounds(line.skip(n).skip(1), CharClass::IsNot(']'));
    }
    if parts.marker is Some {
        let marker = parts.marker->0;
        let a = leading(tail, CharClass::Whitespace) as int;
        lemma_leading_bounds(tail, CharClass::Whitespace);
        let after_space = tail.skip(a);
        let b = leading(after_space.skip(1), CharClass::Whitespace) as int;
        lemma_leading_bounds(after_space.skip(1), CharClass::Whitespace);
        let gap = line.subrange(head.len() as int, line.len() - marker.len());
        assert forall|i: int| 0 <= i < a implies in_class(CharClass::Whitespace, gap[i]) by {
            assert(gap[i] == tail[i]);
        }
        lemma_leading_is(gap, CharClass::Whitespace, a);
        let stripped = strip_leading(gap, CharClass::Whitespace);
        assert forall|i: int| 1 <= i < 1 + b implies in_class(
            CharClass::Whitespace,
            stripped[i],
        ) by {
            assert(stripped[i] == after_space.skip(1)[i - 1]);
        }
        lemma_trailing_is(stripped, CharClass::Whitespace, b);
    }
}

fn has_operator(rest: &Vec<char>) -> (r: bool)
    ensures
        r == begins_with_operator(rest@),
{
    rest.len() > 0 && (rest[0] == '<' || rest[0] == '>' || (rest.len() > 1 && rest[1] == '='
        && (rest[0] == '=' || rest[0] == '!' || rest[0] == '~')))
}

fn read_marker(rest: &Vec<char>) -> (r: Option<Option<String>>)
    ensures
        match r {
            Some(Some(m)) => marker_of(rest@) == Some(Some(m@)),
            Some(None) => marker_of(rest@) == Some(None::<Seq<char>>),
            None => marker_of(rest@) is None,
        },
{
    if rest.len() == 0 {
        return Some(None);
    }
    let after_space = strip_leading_chars(rest, CharClass::Whitespace);
    if after_space.len() == 0 || after_space[0] != ';' {
        return None;
    }
    let tail = subrange(&after_space, 1, after_space.len());
    let marker = strip_leading_chars(&tail, CharClass::Whitespace);
    if contains_char(&marker, '\n') {
        return None;
    }
    Some(Some(from_chars(&marker)))
}

/// Reads `line` as one requirement.
pub fn match_requirement(line: &Vec<char>) -> (r: Option<RequirementParts>)
    ensures
        match r {
            Some(parts) => requirement_parts(line@) == Some(parts@),
            None => requirement_parts(line@) is None,
        },
{
    let n = count_leading(line, CharClass::PackageName);
    if n < 2 || !char_is_ascii_alphanumeric(line[0]) || !char_is_ascii_alphanumeric(line[n - 1]) {
        return None;
    }
    let after_name = subrange(line, n, line.len());
    let mut e: usize = 0;
    if after_name.len() > 0 && after_name[0] == '[' {
        let inner = subrange(&after_name, 1, after_name.len());
        let k = count_leading(&inner, CharClass::IsNot(']'));
        if k < 1 || k + 1 >= after_name.len() {
            return None;
        }
        e = k + 2;
    }
    let rest = subrange(line, n + e, line.len());
    if !has_operator(&rest) {
        return None;
    }
    let c = count_leading(&rest, CharClass::VersionSpec);
    let tail = subrange(&rest, c, rest.len());
    let marker = match read_marker(&tail) {
        Some(marker) => marker,
        None => {
            return None;
        },
    };
    let extras = if e == 0 {
        None
    } else {
        Some(from_chars(&subrange(line, n + 1, n + e - 1)))
    };
    Some(
        RequirementParts {
            name: from_chars(&subrange(line, 0, n)),
            extras,
            constraint: from_chars(&subrange(&rest, 0, c)),
            marker,
        },
    )
}

/// What `semver::VersionReq::parse` makes of a text: the requirement that it
/// reads, or nothing where it reports an error.
pub uninterp spec fn semver_requirement(text: Seq<char>) -> Option<semver::VersionReq>;

/// Calls `semver::VersionReq::parse`, which reads a comma-separated list of
/// comparators and returns an error, never a panic, on any other text. The
/// result depends on the text alone.
#[verifier::external_body]
fn parse_version_req(text: &str) -> (r: Option<semver::VersionReq>)
    ensures
        r == semver_requirement(text@),
{
    semver::VersionReq::parse(text).ok()
}

/// Each piece without the white space around it.
pub open spec fn trimmed(pieces: Seq<Seq<char>>) -> Seq<Seq<char>> {
    Seq::new(pieces.len(), |i: int| trim(pieces[i]))
}

/// The names of the extras between the brackets: the pieces between commas,
/// without the white space around them.
pub open spec fn extras_of(extras: Option<Seq<char>>) -> Seq<Seq<char>> {
    match extras {
        Some(e) => trimmed(split(e, seq![','])),
        None => seq![],
    }
}

/// The record made of the pieces of a requirement and of what the version
/// parser made of its constraint.
pub open spec fn requirement_of(
    parts: RequirementPartsView,
    version_req: Option<semver::VersionReq>,
) -> PackageRequirementView {
    PackageRequirementView {
        name: parts.name,
        version_req,
        extras: extras_of(parts.extras),
        marker: parts.marker,
    }
}

/// The constraint in the notation of the version parser, which writes an
/// exact version with one equals sign: a leading `==` or `===` becomes `=`.
/// Any other constraint stays as it is.
pub open spec fn exact_as_one_sign(constraint: Seq<char>) -> Seq<char> {
    if seq!['=', '=', '='].is_prefix_of(constraint) {
        seq!['='] + constraint.skip(3)
    } else if seq!['=', '='].is_prefix_of(constraint) {
        seq!['='] + constraint.skip(2)
    } else {
        constraint
    }
}

/// What the version parser makes of a constraint, read in its notation.
pub open spec fn version_requirement(constraint: Seq<char>) -> Option<semver::VersionReq> {
    semver_requirement(exact_as_one_sign(constraint))
}

/// The record of the requirement that `line` is, if it is one.
pub open spec fn parse_requirement(line: Seq<char>) -> Option<PackageRequirementView> {
    match requirement_parts(line) {
        Some(parts) => Some(requirement_of(parts, version_requirement(parts.constraint))),
        None => None,
    }
}

/// The record of a requirement without constraint, extras or marker.
pub open spec fn bare_requirement(name: Seq<char>) -> PackageRequirementView {
    PackageRequirementView { name, version_req: None, extras: seq![], marker: None }
}

fn trimmed_strings(pieces: &Vec<Vec<char>>) -> (out: Vec<String>)
    ensures
        views(out@) == trimmed(views(pieces@)),
{
    let mut out: Vec<String> = Vec::new();
    let mut i: usize = 0;
    while i < pieces.len()
        invariant
            i <= pieces.len(),
            out.len() == i,
            forall|j: int| 0 <= j < i ==> out@[j]@ == trim(pieces@[j]@),
        decreases pieces.len() - i,
    {
        let piece = trim_chars(&pieces[i]);
        out.push(from_chars(&piece));
        i += 1;
    }
    out
}

impl PackageRequirement {
    /// The record made of the pieces of a requirement and of what the version
    /// parser made of its constraint.
    pub fn from_parts(parts: RequirementParts, version_req: Option<semver::VersionReq>) -> (r:
        Self)
        ensures
            r@ == requirement_of(parts@, version_req),
    {
        let extras = match &parts.extras {
            Some(e) => {
                let comma: Vec<char> = vec![','];
                proof {
                    assert(comma@ == seq![',']);
                }
                let chars = to_chars(e.as_str());
                let pieces = split_chars(&chars, &comma);
                trimmed_strings(&pieces)
            },
            None => {
                let none: Vec<String> = Vec::new();
                proof {
                    assert(views(none@) == Seq::<Seq<char>>::empty());
                }
                none
            },
        };
        PackageRequirement { name: parts.name, version_req, extras, marker: parts.marker }
    }

    /// The record of a requirement without constraint, extras or marker.
    pub fn bare(name: String) -> (r: Self)
        ensures
            r@ == bare_requirement(name@),
    {
        let extras: Vec<String> = Vec::new();
        proof {
            assert(views(extras@) == Seq::<Seq<char>>::empty());
        }
        PackageRequirement { name, version_req: None, extras, marker: None }
    }
}

/// The constraint in the notation of the version parser.
pub fn constraint_for_parser(constraint: &str) -> (text: String)
    ensures
        text@ == exact_as_one_sign(constraint@),
{
    let chars = to_chars(constraint);
    let doubled = chars.len() >= 2 && chars[0] == '=' && chars[1] == '=';
    if !doubled {
        return from_chars(&chars);
    }
    let signs: usize = if chars.len() >= 3 && chars[2] == '=' {
        3
    } else {
        2
    };
    let mut text: Vec<char> = vec!['='];
    let rest = subrange(&chars, signs, chars.len());
    append_chars(&mut text, &rest);
    proof {
        assert(seq!['=', '='].is_prefix_of(chars@)) by {
            assert(chars@.subrange(0, 2) =~= seq!['=', '=']);
        }
        if signs == 3 {
            assert(chars@.subrange(0, 3) =~= seq!['=', '=', '=']);
        } else if chars.len() >= 3 {
            assert(chars@.subrange(0, 3)[2] == chars@[2]);
        }
    }
    from_chars(&text)
}

/// Reads `line` as one requirement and has its constraint parsed.
pub fn requirement_from_chars(line: &Vec<char>) -> (r: Option<PackageRequirement>)
    ensures
        match r {
            Some(req) => parse_requirement(line@) == Some(req@),
            None => parse_requirement(line@) is None,
        },
{
    match match_requirement(line) {
        Some(parts) => {
            let text = constraint_for_parser(parts.constraint.as_str());
            let version_req = parse_version_req(text.as_str());
            Some(PackageRequirement::from_parts(parts, version_req))
        },
        None => None,
    }
}

} // verus!
