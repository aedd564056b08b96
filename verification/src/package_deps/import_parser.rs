//! Finds the import statements of a source text.
//!
//! A statement begins on a line that, without the white space around it,
//! starts with `import ` or `from `. It takes in the following lines as long
//! as the line taken last ends with a backslash, or the statement so far holds
//! an opening parenthesis and no closing one.
use crate::package_deps::models::{ImportInfo, ImportInfoView};
use crate::text::{
    append_chars, contains_char, ends_with, from_chars, lines, lines_of, split, split_chars, starts_with,
    subrange, to_chars, trim, trim_chars, views,
};
use vstd::prelude::*;

verus! {

/// Each piece without the white space around it; pieces that are nothing but
/// white space are left out.
pub open spec fn trimmed_nonempty(pieces: Seq<Seq<char>>) -> Seq<Seq<char>>
    decreases pieces.len(),
{
    if pieces.len() == 0 {
        seq![]
    } else {
        let before = trimmed_nonempty(pieces.drop_last());
        let piece = trim(pieces.last());
        if piece.len() > 0 {
            before.push(piece)
        } else {
            before
        }
    }
}

/// The segments of a dotted module path.
pub open spec fn dotted_segments(path: Seq<char>) -> Seq<Seq<char>> {
    trimmed_nonempty(split(path, seq!['.']))
}

/// The record of a statement `from <module> import <names>`, if `statement`
/// is one: it begins with `from `, the rest holds ` import ` exactly once,
/// and the module path has a segment.
pub open spec fn from_import(statement: Seq<char>) -> Option<ImportInfoView> {
    let parts = split(statement.skip("from "@.len() as int), " import "@);
    let dotted_path = dotted_segments(parts[0]);
    if "from "@.is_prefix_of(statement) && parts.len() == 2 && dotted_path.len() > 0 {
        Some(
            ImportInfoView {
                package_name: dotted_path[0],
                dotted_path,
                is_from_import: true,
                imported_names: trimmed_nonempty(split(parts[1], seq![','])),
            },
        )
    } else {
        None
    }
}

/// The record of one entry of a statement `import <entry>, <entry>, ...`:
/// what stands before the first ` as ` is the module path. An entry without
/// a segment gives no record.
pub open spec fn direct_entry(entry: Seq<char>) -> Option<ImportInfoView> {
    let dotted_path = dotted_segments(split(entry, " as "@)[0]);
    if dotted_path.len() > 0 {
        Some(
            ImportInfoView {
                package_name: dotted_path[0],
                dotted_path,
                is_from_import: false,
                imported_names: seq![dotted_path[0]],
            },
        )
    } else {
        None
    }
}

/// The records of the given entries, in order.
pub open spec fn direct_entries(entries: Seq<Seq<char>>) -> Seq<ImportInfoView>
    decreases entries.len(),
{
    if entries.len() == 0 {
        seq![]
    } else {
        let before = direct_entries(entries.drop_last());
        match direct_entry(trim(entries.last())) {
            Some(record) => before.push(record),
            None => before,
        }
    }
}

/// The records of a statement `import <entry>, <entry>, ...`, one for each
/// entry that names a module.
pub open spec fn direct_imports(statement: Seq<char>) -> Seq<ImportInfoView> {
    if "import "@.is_prefix_of(statement) {
        direct_entries(split(trim(statement.skip("import "@.len() as int)), seq![',']))
    } else {
        seq![]
    }
}

/// The records of one statement.
pub open spec fn statement_imports(statement: Seq<char>) -> Seq<ImportInfoView> {
    if "from "@.is_prefix_of(statement) {
        match from_import(statement) {
            Some(record) => seq![record],
            None => seq![],
        }
    } else {
        direct_imports(statement)
    }
}

/// Whether a line begins an import statement.
pub open spec fn begins_import(line: Seq<char>) -> bool {
    "import "@.is_prefix_of(line) || "from "@.is_prefix_of(line)
}

/// Whether a statement goes on in the next line: `current` is the line taken
/// in last.
pub open spec fn goes_on(current: Seq<char>, statement: Seq<char>) -> bool {
    "\\"@.is_suffix_of(current) || (statement.contains('(') && !statement.contains(')'))
}

/// The statement that has grown to `statement`, with `current` taken in last
/// and `lines[next]` the line after it, and the line at which the scan goes
/// on after the statement.
pub open spec fn whole_statement(
    lines: Seq<Seq<char>>,
    next: int,
    current: Seq<char>,
    statement: Seq<char>,
) -> (Seq<char>, int)
    decreases lines.len() - next,
{
    if 0 <= next < lines.len() && goes_on(current, statement) {
        let line = trim(lines[next]);
        whole_statement(lines, next + 1, line, statement + line)
    } else {
        (statement, next)
    }
}

/// The records of the statements that begin at `lines[i]` or later.
pub open spec fn imports_from_line(lines: Seq<Seq<char>>, i: int) -> Seq<ImportInfoView>
    decreases lines.len() - i,
{
    if i < 0 || i >= lines.len() {
        seq![]
    } else {
        let line = trim(lines[i]);
        let (statement, next) = whole_statement(lines, i + 1, line, line);
        if !begins_import(line) {
            imports_from_line(lines, i + 1)
        } else if i < next <= lines.len() {
            statement_imports(statement) + imports_from_line(lines, next)
        } else {
            seq![]
        }
    }
}

/// The import records of a source text, in the order of its statements.
pub open spec fn scan_imports(text: Seq<char>) -> Seq<ImportInfoView> {
    imports_from_line(lines(text), 0)
}

/// Whether a record names a module by at least one segment, of which the
/// first is its top-level package.
pub open spec fn names_a_module(record: ImportInfoView) -> bool {
    record.dotted_path.len() > 0 && record.package_name == record.dotted_path[0]
}

/// Every record of a list of entries names a module.
pub proof fn lemma_entries_name_modules(entries: Seq<Seq<char>>)
    ensures
        forall|i: int|
            0 <= i < direct_entries(entries).len() ==> names_a_module(
                #[trigger] direct_entries(entries)[i],
            ),
    decreases entries.len(),
{
    if entries.len() > 0 {
        let before = direct_entries(entries.drop_last());
        lemma_entries_name_modules(entries.drop_last());
        assert forall|i: int| 0 <= i < direct_entries(entries).len() implies names_a_module(
            #[trigger] direct_entries(entries)[i],
        ) by {
            if i < before.len() {
                assert(direct_entries(entries)[i] == before[i]);
            }
        }
    }
}

/// Every record of a statement names a module.
pub proof fn lemma_statement_names_modules(statement: Seq<char>)
    ensures
        forall|i: int|
            0 <= i < statement_imports(statement).len() ==> names_a_module(
                #[trigger] statement_imports(statement)[i],
            ),
{
    lemma_entries_name_modules(
        split(trim(statement.skip("import "@.len() as int)), seq![',']),
    );
}

/// Every record of the statements from `lines[i]` on names a module.
pub proof fn lemma_lines_name_modules(lines: Seq<Seq<char>>, i: int)
    ensures
        forall|k: int|
            0 <= k < imports_from_line(lines, i).len() ==> names_a_module(
                #[trigger] imports_from_line(lines, i)[k],
            ),
    decreases lines.len() - i,
{
    if 0 <= i < lines.len() {
        let line = trim(lines[i]);
        let whole = whole_statement(lines, i + 1, line, line);
        let statement = whole.0;
        let next = whole.1;
        if !begins_import(line) {
            lemma_lines_name_modules(lines, i + 1);
            assert(imports_from_line(lines, i) == imports_from_line(lines, i + 1));
        } else if i < next <= lines.len() {
            let first = statement_imports(statement);
            let rest = imports_from_line(lines, next);
            lemma_statement_names_modules(statement);
            lemma_lines_name_modules(lines, next);
            assert(imports_from_line(lines, i) == first + rest);
            assert forall|k: int| 0 <= k < (first + rest).len() implies names_a_module(
                #[trigger] (first + rest)[k],
            ) by {
                if k < first.len() {
                    assert((first + rest)[k] == first[k]);
                } else {
                    assert((first + rest)[k] == rest[k - first.len()]);
                }
            }
        }
    }
}

/// Every import record of a source text names a module: its dotted path has
/// a segment, and the first segment is its top-level package.
pub proof fn lemma_records_name_modules(text: Seq<char>)
    ensures
        forall|k: int|
            0 <= k < scan_imports(text).len() ==> names_a_module(#[trigger] scan_imports(text)[k]),
{
    lemma_lines_name_modules(lines(text), 0);
}

/// Scans a source text for its import statements.
pub struct ImportParser {
    content: String,
}

fn trimmed_pieces(pieces: &Vec<Vec<char>>) -> (out: Vec<String>)
    ensures
        views(out@) == trimmed_nonempty(views(pieces@)),
{
    let mut out: Vec<String> = Vec::new();
    let mut i: usize = 0;
    while i < pieces.len()
        invariant
            i <= pieces.len(),
            views(out@) == trimmed_nonempty(views(pieces@).take(i as int)),
        decreases pieces.len() - i,
    {
        let piece = trim_chars(&pieces[i]);
        proof {
            assert(views(pieces@).take(i + 1).drop_last() == views(pieces@).take(i as int));
        }
        if piece.len() > 0 {
            let s = from_chars(&piece);
            out.push(s);
        }
        i += 1;
    }
    proof {
        assert(views(pieces@).take(pieces.len() as int) == views(pieces@));
    }
    out
}

fn segments_of(path: &Vec<char>) -> (out: Vec<String>)
    ensures
        views(out@) == dotted_segments(path@),
{
    let dot: Vec<char> = vec!['.'];
    proof {
        assert(dot@ == seq!['.']);
    }
    let pieces = split_chars(path, &dot);
    trimmed_pieces(&pieces)
}

fn from_import_of(statement: &Vec<char>) -> (r: Option<ImportInfo>)
    ensures
        match r {
            Some(info) => from_import(statement@) == Some(info@),
            None => from_import(statement@) is None,
        },
{
    let prefix = to_chars("from ");
    if !starts_with(statement, &prefix) {
        return None;
    }
    let rest = subrange(statement, prefix.len(), statement.len());
    let keyword = to_chars(" import ");
    let parts = split_chars(&rest, &keyword);
    if parts.len() != 2 {
        return None;
    }
    let dotted_path = segments_of(&parts[0]);
    if dotted_path.len() == 0 {
        return None;
    }
    let comma: Vec<char> = vec![','];
    proof {
        assert(comma@ == seq![',']);
    }
    let names = split_chars(&parts[1], &comma);
    let imported_names = trimmed_pieces(&names);
    let package_name = dotted_path[0].clone();
    Some(ImportInfo { package_name, dotted_path, is_from_import: true, imported_names })
}

fn direct_entry_of(entry: &Vec<char>) -> (r: Option<ImportInfo>)
    ensures
        match r {
            Some(info) => direct_entry(entry@) == Some(info@),
            None => direct_entry(entry@) is None,
        },
{
    let keyword = to_chars(" as ");
    let parts = split_chars(entry, &keyword);
    let dotted_path = segments_of(&parts[0]);
    if dotted_path.len() == 0 {
        return None;
    }
    let package_name = dotted_path[0].clone();
    let imported = dotted_path[0].clone();
    let mut imported_names: Vec<String> = Vec::new();
    imported_names.push(imported);
    proof {
        assert(views(imported_names@) == seq![dotted_path@[0]@]);
    }
    Some(ImportInfo { package_name, dotted_path, is_from_import: false, imported_names })
}

fn direct_imports_of(statement: &Vec<char>) -> (out: Vec<ImportInfo>)
    ensures
        views(out@) == direct_imports(statement@),
{
    let mut out: Vec<ImportInfo> = Vec::new();
    let prefix = to_chars("import ");
    if !starts_with(statement, &prefix) {
        return out;
    }
    let rest = subrange(statement, prefix.len(), statement.len());
    let imported = trim_chars(&rest);
    let comma: Vec<char> = vec![','];
    proof {
        assert(comma@ == seq![',']);
    }
    let entries = split_chars(&imported, &comma);
    let mut i: usize = 0;
    while i < entries.len()
        invariant
            i <= entries.len(),
            views(out@) == direct_entries(views(entries@).take(i as int)),
        decreases entries.len() - i,
    {
        let entry = trim_chars(&entries[i]);
        proof {
            assert(views(entries@).take(i + 1).drop_last() == views(entries@).take(i as int));
        }
        match direct_entry_of(&entry) {
            Some(info) => {
                out.push(info);
            },
            None => {},
        }
        i += 1;
    }
    proof {
        assert(views(entries@).take(entries.len() as int) == views(entries@));
    }
    out
}

fn statement_imports_of(statement: &Vec<char>) -> (out: Vec<ImportInfo>)
    ensures
        views(out@) == statement_imports(statement@),
{
    let prefix = to_chars("from ");
    if starts_with(statement, &prefix) {
        let mut out: Vec<ImportInfo> = Vec::new();
        match from_import_of(statement) {
            Some(info) => {
                out.push(info);
            },
            None => {},
        }
        out
    } else {
        direct_imports_of(statement)
    }
}

fn line_begins_import(line: &Vec<char>) -> (r: bool)
    ensures
        r == begins_import(line@),
{
    let import = to_chars("import ");
    let from = to_chars("from ");
    starts_with(line, &import) || starts_with(line, &from)
}

fn statement_goes_on(current: &Vec<char>, statement: &Vec<char>) -> (r: bool)
    ensures
        r == goes_on(current@, statement@),
{
    let backslash = to_chars("\\");
    ends_with(current, &backslash) || (contains_char(statement, '(') && !contains_char(
        statement,
        ')',
    ))
}

/// The import records of the given lines.
fn scan_lines(all: &Vec<Vec<char>>) -> (imports: Vec<ImportInfo>)
    ensures
        views(imports@) == imports_from_line(views(all@), 0),
{
    let ghost lines = views(all@);
    let mut imports: Vec<ImportInfo> = Vec::new();
    let mut i: usize = 0;
    while i < all.len()
        invariant
            i <= all.len(),
            lines == views(all@),
            imports_from_line(lines, 0) == views(imports@) + imports_from_line(lines, i as int),
        decreases all.len() - i,
    {
        let line = trim_chars(&all[i]);
        if line_begins_import(&line) {
            let mut statement = line.clone();
            let mut current = line;
            let mut next: usize = i + 1;
            while next < all.len() && statement_goes_on(&current, &statement)
                invariant
                    i < next <= all.len(),
                    lines == views(all@),
                    whole_statement(lines, i + 1, trim(lines[i as int]), trim(lines[i as int]))
                        == whole_statement(lines, next as int, current@, statement@),
                decreases all.len() - next,
            {
                current = trim_chars(&all[next]);
                append_chars(&mut statement, &current);
                next += 1;
            }
            let found = statement_imports_of(&statement);
            let mut found = found;
            imports.append(&mut found);
            i = next;
        } else {
            i += 1;
        }
    }
    imports
}

impl ImportParser {
    /// The text that this parser scans.
    pub closed spec fn text(&self) -> Seq<char> {
        self.content@
    }

    /// A parser for the given text.
    pub fn new(content: String) -> (parser: Self)
        ensures
            parser.text() == content@,
    {
        Self { content }
    }

    /// The import records of the text, in the order of its statements. Each
    /// names a module: its dotted path has a segment, of which the first is
    /// its top-level package.
    pub fn parse_imports(&mut self) -> (imports: Vec<ImportInfo>)
        ensures
            views(imports@) == scan_imports(old(self).text()),
            forall|k: int| 0 <= k < imports.len() ==> names_a_module(#[trigger] imports@[k]@),
            final(self).text() == old(self).text(),
    {
        let chars = to_chars(self.content.as_str());
        let all = lines_of(&chars);
        let imports = scan_lines(&all);
        proof {
            let records = scan_imports(self.content@);
            lemma_records_name_modules(self.content@);
            assert(views(imports@) == records);
            assert forall|k: int| 0 <= k < imports.len() implies names_a_module(
                #[trigger] imports@[k]@,
            ) by {
                assert(records[k] == imports@[k]@);
            }
        }
        imports
    }

    /// The records of one statement.
    pub fn parse_import_statement(&self, statement: &str) -> (imports: Vec<ImportInfo>)
        ensures
            views(imports@) == statement_imports(statement@),
    {
        let chars = to_chars(statement);
        statement_imports_of(&chars)
    }

    /// The record of a statement `from <module> import <names>`.
    pub fn parse_from_import(&self, statement: &str) -> (r: Option<ImportInfo>)
        ensures
            match r {
                Some(info) => from_import(statement@) == Some(info@),
                None => from_import(statement@) is None,
            },
    {
        let chars = to_chars(statement);
        from_import_of(&chars)
    }

    /// The records of a statement `import <entry>, <entry>, ...`.
    pub fn parse_direct_import(&self, statement: &str) -> (imports: Vec<ImportInfo>)
        ensures
            views(imports@) == direct_imports(statement@),
    {
        let chars = to_chars(statement);
        direct_imports_of(&chars)
    }
}

} // verus!
