//! The description of one target in the plain keyword form: keywords, each with
//! the bare texts listed below it.

use vstd::prelude::*;
use vstd::string::*;
use crate::mmk_parser::{remove_comments as remove_all_comments, without_comments};
use crate::patterns::{captured, debug_quoted, first_capture, quoted};
use crate::registry::{key_of, lemma_key_of};
use crate::text::{
    lines_of, replace_all, replaced_all, same_text, split_lines, texts, trim, trim_end, trimmed,
    trimmed_end,
};
use crate::utility::{parent_directory, parent_of};

verus! {

/// An error, as the text that tells of it.
#[derive(Debug, PartialEq, Eq, Clone)]
pub struct MyMakeError {
    details: String,
}

impl View for MyMakeError {
    type V = Seq<char>;

    closed spec fn view(&self) -> Seq<char> {
        self.details@
    }
}

impl MyMakeError {
    /// The error that `details` tells of.
    pub fn from(details: &str) -> (r: MyMakeError)
        ensures
            r@ == details@,
    {
        MyMakeError { details: String::from_str(details) }
    }

    /// What the error says to the user.
    pub fn to_string(&self) -> (r: String)
        ensures
            r@ == self@,
    {
        self.details.clone()
    }
}

/// A keyword with its arguments.
#[derive(Debug, PartialEq, Eq, Clone)]
pub struct MmkEntry {
    pub key: String,
    pub args: Vec<String>,
}

/// An entry over character sequences.
pub ghost struct EntryView {
    pub key: Seq<char>,
    pub args: Seq<Seq<char>>,
}

/// The entries of a list, each over character sequences.
pub open spec fn entry_views(entries: Seq<MmkEntry>) -> Seq<EntryView> {
    entries.map_values(|e: MmkEntry| EntryView { key: e.key@, args: texts(e.args@) })
}

/// The keys of the entries, in order.
pub open spec fn entry_keys(entries: Seq<EntryView>) -> Seq<Seq<char>> {
    entries.map_values(|e: EntryView| e.key)
}

/// No key occurs twice.
pub open spec fn distinct_keys(entries: Seq<EntryView>) -> bool {
    forall|i: int, j: int| 0 <= i < j < entries.len() ==> (#[trigger] entries[i]).key != (#[trigger] entries[j]).key
}

/// The arguments that the entries hold for `key`: those of the entry of that key.
pub open spec fn lookup(entries: Seq<EntryView>, key: Seq<char>) -> Option<Seq<Seq<char>>> {
    let at = key_of(entry_keys(entries), key);
    if at >= 0 {
        Some(entries[at].args)
    } else {
        None
    }
}

/// The entries with `entry` set: in place of the entry of its key where there
/// is one, else behind all others.
pub open spec fn inserted(entries: Seq<EntryView>, entry: EntryView) -> Seq<EntryView> {
    let at = key_of(entry_keys(entries), entry.key);
    if at >= 0 {
        entries.update(at, entry)
    } else {
        entries.push(entry)
    }
}

/// Setting an entry keeps the keys apart, and changes what is held for its key alone.
pub proof fn lemma_inserted(entries: Seq<EntryView>, entry: EntryView)
    requires
        distinct_keys(entries),
    ensures
        distinct_keys(inserted(entries, entry)),
        forall|k: Seq<char>| lookup(inserted(entries, entry), k) == if k == entry.key {
            Some(entry.args)
        } else {
            lookup(entries, k)
        },
{
    let keys = entry_keys(entries);
    lemma_key_of(keys, entry.key);
    let at = key_of(keys, entry.key);
    let after = inserted(entries, entry);
    assert forall|i: int, j: int| 0 <= i < j < after.len() implies (#[trigger] after[i]).key != (#[trigger] after[j]).key by {
        if at >= 0 {
            assert(keys[at] == entries[at].key);
            assert(after[i].key == entries[i].key);
            assert(after[j].key == entries[j].key);
        } else {
            if j == entries.len() {
                assert(keys[i] == entries[i].key);
            }
        }
    }
    assert forall|k: Seq<char>| lookup(after, k) == if k == entry.key {
        Some(entry.args)
    } else {
        lookup(entries, k)
    } by {
        lemma_key_of(keys, k);
        let found = key_of(keys, k);
        if at >= 0 {
            assert(keys[at] == entries[at].key);
            assert(entry_keys(after) =~= keys);
            if found >= 0 {
                assert(keys[found] == entries[found].key);
            }
        } else {
            assert(entry_keys(after) =~= keys.push(entry.key));
            assert(entry_keys(after).drop_last() =~= keys);
        }
    }
}

/// Whether `keyword` is a keyword of the language.
pub open spec fn known_keyword(keyword: Seq<char>) -> bool {
    ||| keyword == "MMK_DEPEND"@
    ||| keyword == "MMK_SOURCES"@
    ||| keyword == "MMK_HEADERS"@
    ||| keyword == "MMK_EXECUTABLE"@
    ||| keyword == "MMK_SYS_INCLUDE"@
    ||| keyword == "MMK_CXXFLAGS_APPEND"@
    ||| keyword == "MMK_CPPFLAGS_APPEND"@
    ||| keyword == "MMK_LIBRARY_LABEL"@
}

/// What the error for a keyword that the language does not know says.
pub open spec fn invalid_keyword_message(keyword: Seq<char>) -> Seq<char> {
    keyword + " is not a valid keyword."@
}

/// What stands before each argument of `key` when the arguments are listed on
/// one line: the search path option before dependencies, the option for
/// system headers before system include paths.
pub open spec fn argument_prefix(key: Seq<char>) -> Seq<char> {
    if key == "MMK_DEPEND"@ {
        "-I"@
    } else if key == "MMK_SYS_INCLUDE"@ {
        "-isystem "@
    } else {
        Seq::empty()
    }
}

/// The arguments of `args` before the first empty one, each with `prefix` before it and a blank behind it.
pub open spec fn listed(prefix: Seq<char>, args: Seq<Seq<char>>) -> Seq<char>
    decreases args.len(),
{
    if args.len() == 0 || args[0].len() == 0 {
        Seq::empty()
    } else {
        prefix + args[0] + " "@ + listed(prefix, args.drop_first())
    }
}

/// The arguments of `key` on one line, without white space at the end.
pub open spec fn line_of(entries: Seq<EntryView>, key: Seq<char>) -> Seq<char> {
    trimmed_end(
        listed(
            argument_prefix(key),
            match lookup(entries, key) {
                Some(args) => args,
                None => Seq::empty(),
            },
        ),
    )
}

/// The regular expression of a line that opens an expression: a keyword and a colon.
pub open spec fn rule_pattern() -> Seq<char> {
    "(MMK_\\w+):[\\r\\n]*"@
}

/// The number of lines from `start` on that hold an argument, up to the first that is blank.
pub open spec fn argument_count(lines: Seq<Seq<char>>, start: int) -> nat
    decreases lines.len() - start,
{
    if 0 <= start < lines.len() && trimmed(lines[start]).len() > 0 {
        1 + argument_count(lines, start + 1)
    } else {
        0
    }
}

/// The arguments that the lines from `start` on hold: each line without the
/// white space at its ends.
pub open spec fn expression_arguments(lines: Seq<Seq<char>>, start: int) -> Seq<Seq<char>> {
    Seq::new(argument_count(lines, start), |k: int| trimmed(lines[start + k]))
}

/// The number of the line behind the expression that line `i` opens: behind
/// the blank line at which its arguments end, but not behind the end of the text.
pub open spec fn next_expression(lines: Seq<Seq<char>>, i: int) -> int {
    let end = i + 1 + argument_count(lines, i + 1);
    if end < lines.len() {
        end + 1
    } else {
        lines.len() as int
    }
}

/// The entries that the lines from `i` on set in `entries`, or the text of the
/// first error in them. A line that opens an expression is followed by its
/// arguments, one to a line, up to a blank line or the end. Any other line is
/// passed over.
pub open spec fn parse_lines(lines: Seq<Seq<char>>, i: int, entries: Seq<EntryView>) -> Result<
    Seq<EntryView>,
    Seq<char>,
>
    decreases lines.len() - i,
{
    if i < 0 || i >= lines.len() {
        Ok(entries)
    } else {
        match captured(rule_pattern(), lines[i]) {
            None => parse_lines(lines, i + 1, entries),
            Some(keyword) => if !known_keyword(keyword) {
                Err(invalid_keyword_message(keyword))
            } else {
                parse_lines(
                    lines,
                    next_expression(lines, i),
                    inserted(entries, EntryView { key: keyword, args: expression_arguments(lines, i + 1) }),
                )
            },
        }
    }
}

/// The description of one target.
#[derive(Debug, PartialEq, Eq, Clone)]
pub struct Mmk {
    data: Vec<MmkEntry>,
}

impl View for Mmk {
    type V = Seq<EntryView>;

    closed spec fn view(&self) -> Seq<EntryView> {
        entry_views(self.data@)
    }
}

impl Mmk {
    /// A description is valid when no keyword has two entries.
    pub open spec fn wf(&self) -> bool {
        distinct_keys(self@)
    }

    /// The empty description.
    pub fn new() -> (r: Mmk)
        ensures
            r.wf(),
            r@.len() == 0,
    {
        Mmk { data: Vec::new() }
    }

    /// The entries, in the order in which their keywords were first set.
    pub fn data(&self) -> (r: &Vec<MmkEntry>)
        ensures
            entry_views(r@) == self@,
    {
        &self.data
    }

    /// The place of the entry of `key`.
    fn position(&self, key: &str) -> (r: Option<usize>)
        ensures
            match r {
                Some(at) => at < self.data.len() && at as int == key_of(entry_keys(self@), key@),
                None => key_of(entry_keys(self@), key@) == -1,
            },
    {
        let ghost keys = entry_keys(self@);
        proof {
            lemma_key_of(keys, key@);
        }
        let mut i: usize = 0;
        while i < self.data.len()
            invariant
                i <= self.data.len(),
                keys == entry_keys(self@),
                keys.len() == self.data.len(),
                forall|j: int| 0 <= j < i ==> keys[j] != key@,
            decreases self.data.len() - i,
        {
            assert(keys[i as int] == self.data@[i as int].key@);
            if same_text(self.data[i].key.as_str(), key) {
                proof {
                    lemma_key_of(keys, key@);
                }
                return Some(i);
            }
            i += 1;
        }
        None
    }

    /// Sets the arguments of `key`, in place of those it had.
    pub fn insert(&mut self, key: &str, args: Vec<String>)
        requires
            old(self).wf(),
        ensures
            final(self).wf(),
            final(self)@ == inserted(old(self)@, EntryView { key: key@, args: texts(args@) }),
            forall|k: Seq<char>| lookup(final(self)@, k) == if k == key@ {
                Some(texts(args@))
            } else {
                lookup(old(self)@, k)
            },
    {
        let ghost entry = EntryView { key: key@, args: texts(args@) };
        proof {
            lemma_inserted(self@, entry);
        }
        match self.position(key) {
            Some(at) => {
                self.data.set(at, MmkEntry { key: String::from_str(key), args });
                assert(self@ =~= inserted(old(self)@, entry));
            },
            None => {
                self.data.push(MmkEntry { key: String::from_str(key), args });
                assert(self@ =~= inserted(old(self)@, entry));
            },
        }
    }

    /// The arguments of `key`.
    pub fn find(&self, key: &str) -> (r: Option<&Vec<String>>)
        ensures
            match r {
                Some(args) => lookup(self@, key@) == Some(texts(args@)),
                None => lookup(self@, key@) is None,
            },
    {
        match self.position(key) {
            Some(at) => Some(&self.data[at].args),
            None => None,
        }
    }

    /// The arguments of `key` on one line, up to the first empty one: each
    /// behind the option that its keyword calls for, a blank between each two.
    pub fn to_string(&self, key: &str) -> (r: String)
        ensures
            r@ == line_of(self@, key@),
    {
        let prefix = if same_text(key, "MMK_DEPEND") {
            "-I"
        } else if same_text(key, "MMK_SYS_INCLUDE") {
            "-isystem "
        } else {
            ""
        };
        proof {
            reveal_strlit("");
            assert(""@ =~= Seq::<char>::empty());
        }
        let mut out = String::new();
        match self.find(key) {
            Some(args) => {
                let ghost views = texts(args@);
                let mut i: usize = 0;
                let mut done = false;
                assert(views.skip(0) =~= views);
                assert(out@ + listed(prefix@, views) =~= listed(prefix@, views));
                while i < args.len() && !done
                    invariant
                        i <= args.len(),
                        views == texts(args@),
                        done ==> out@ == listed(prefix@, views),
                        !done ==> out@ + listed(prefix@, views.skip(i as int)) == listed(prefix@, views),
                    decreases args.len() - i + if done { 0int } else { 1int },
                {
                    let ghost rest = views.skip(i as int);
                    let ghost before = out@;
                    assert(rest[0] == args@[i as int]@);
                    let argument = args[i].as_str();
                    if argument.unicode_len() == 0 {
                        assert(listed(prefix@, rest) =~= Seq::<char>::empty());
                        assert(out@ =~= listed(prefix@, views));
                        done = true;
                    } else {
                        out.append(prefix);
                        out.append(argument);
                        out.append(" ");
                        proof {
                            assert(rest.drop_first() =~= views.skip(i + 1));
                            assert(out@ + listed(prefix@, views.skip(i + 1)) =~= before + listed(prefix@, rest));
                        }
                        i += 1;
                    }
                }
                proof {
                    if !done {
                        assert(views.skip(i as int) =~= Seq::<Seq<char>>::empty());
                        assert(out@ + Seq::<char>::empty() =~= out@);
                    }
                }
            },
            None => {
                assert(out@ =~= listed(prefix@, Seq::<Seq<char>>::empty()));
            },
        }
        trim_end(out.as_str())
    }

    /// Checks that `keyword` is a keyword of the language.
    pub fn valid_keyword(&self, keyword: &str) -> (r: Result<(), MyMakeError>)
        ensures
            match r {
                Ok(()) => known_keyword(keyword@),
                Err(e) => !known_keyword(keyword@) && e@ == invalid_keyword_message(keyword@),
            },
    {
        if same_text(keyword, "MMK_DEPEND") || same_text(keyword, "MMK_SOURCES") || same_text(keyword, "MMK_HEADERS")
            || same_text(keyword, "MMK_EXECUTABLE") || same_text(keyword, "MMK_SYS_INCLUDE") || same_text(
            keyword,
            "MMK_CXXFLAGS_APPEND",
        ) || same_text(keyword, "MMK_CPPFLAGS_APPEND") || same_text(keyword, "MMK_LIBRARY_LABEL") {
            Ok(())
        } else {
            let details = String::from_str(keyword).concat(" is not a valid keyword.");
            Err(MyMakeError::from(details.as_str()))
        }
    }

    /// The sources on one line, with `.o` in place of every `.cpp`.
    pub fn sources_to_objects(&self) -> (r: String)
        ensures
            r@ == replaced_all(line_of(self@, "MMK_SOURCES"@), ".cpp"@, ".o"@),
    {
        let sources = self.to_string("MMK_SOURCES");
        replace_all(sources.as_str(), ".cpp", ".o")
    }

    pub fn has_library_label(&self) -> (r: bool)
        ensures
            r == lookup(self@, "MMK_LIBRARY_LABEL"@) is Some,
    {
        self.find("MMK_LIBRARY_LABEL").is_some()
    }

    /// Reads the arguments of `keyword` from the lines from `start` on, up to
    /// the first blank line, and sets them. Returns the number of the line at
    /// which the arguments end.
    pub fn parse_mmk_expression(&mut self, keyword: &str, lines: &Vec<String>, start: usize) -> (r: Result<
        usize,
        MyMakeError,
    >)
        requires
            old(self).wf(),
            start <= lines.len(),
        ensures
            final(self).wf(),
            match r {
                Ok(end) => {
                    &&& known_keyword(keyword@)
                    &&& end == start + argument_count(texts(lines@), start as int)
                    &&& end <= lines.len()
                    &&& final(self)@ == inserted(
                        old(self)@,
                        EntryView { key: keyword@, args: expression_arguments(texts(lines@), start as int) },
                    )
                },
                Err(e) => {
                    &&& !known_keyword(keyword@)
                    &&& e@ == invalid_keyword_message(keyword@)
                    &&& final(self)@ == old(self)@
                },
            },
    {
        match self.valid_keyword(keyword) {
            Ok(()) => {},
            Err(e) => {
                return Err(e);
            },
        }
        let ghost all = texts(lines@);
        let mut args: Vec<String> = Vec::new();
        let mut i: usize = start;
        let mut done = false;
        while i < lines.len() && !done
            invariant
                start <= i <= lines.len(),
                all == texts(lines@),
                args.len() == i - start,
                argument_count(all, start as int) == (i - start) + argument_count(all, i as int),
                done ==> i < lines.len() && trimmed(all[i as int]).len() == 0,
                forall|k: int| 0 <= k < args.len() ==> (#[trigger] args@[k])@ == trimmed(all[start + k]),
            decreases lines.len() - i + if done { 0int } else { 1int },
        {
            assert(all[i as int] == lines@[i as int]@);
            let line = trim(lines[i].as_str());
            if line.as_str().unicode_len() > 0 {
                args.push(line);
                i += 1;
            } else {
                done = true;
            }
        }
        proof {
            assert(argument_count(all, i as int) == 0);
            assert(texts(args@) =~= expression_arguments(all, start as int));
        }
        self.insert(keyword, args);
        Ok(i)
    }

    /// Reads a description: takes out the comments, then reads the expressions,
    /// each of which sets the arguments of its keyword.
    pub fn parse(&mut self, data: &str) -> (r: Result<(), MyMakeError>)
        requires
            old(self).wf(),
        ensures
            final(self).wf(),
            match r {
                Ok(()) => parse_lines(
                    lines_of(without_comments(data@, lines_of(data@).len())),
                    0,
                    old(self)@,
                ) == Ok::<Seq<EntryView>, Seq<char>>(final(self)@),
                Err(e) => parse_lines(
                    lines_of(without_comments(data@, lines_of(data@).len())),
                    0,
                    old(self)@,
                ) == Err::<Seq<EntryView>, Seq<char>>(e@),
            },
    {
        let text = remove_comments(data);
        let lines = split_lines(text.as_str());
        let ghost all = texts(lines@);
        let ghost wanted = parse_lines(all, 0, self@);
        let mut i: usize = 0;
        while i < lines.len()
            invariant
                all == texts(lines@),
                all == lines_of(without_comments(data@, lines_of(data@).len())),
                wanted == parse_lines(all, 0, old(self)@),
                self.wf(),
                i <= lines.len(),
                wanted == parse_lines(all, i as int, self@),
            decreases lines.len() - i,
        {
            assert(all[i as int] == lines@[i as int]@);
            match first_capture("(MMK_\\w+):[\\r\\n]*", lines[i].as_str()) {
                Some(keyword) => {
                    assert(captured(rule_pattern(), all[i as int]) == Some(keyword@));
                    match self.parse_mmk_expression(keyword.as_str(), &lines, i + 1) {
                        Ok(end) => {
                            assert(wanted == parse_lines(all, next_expression(all, i as int), self@));
                            if end < lines.len() {
                                i = end + 1;
                            } else {
                                i = end;
                            }
                        },
                        Err(e) => {
                            assert(wanted == Err::<Seq<EntryView>, Seq<char>>(e@));
                            return Err(e);
                        },
                    }
                },
                None => {
                    i += 1;
                },
            }
        }
        Ok(())
    }

    /// The directory that holds `source`.
    pub fn source_file_path(&self, source: &str) -> (r: Option<String>)
        ensures
            match r {
                Some(p) => parent_of(source@) == Some(p@),
                None => parent_of(source@) is None,
            },
    {
        parent_directory(source)
    }
}

/// What the error for a path at which no file stands says.
pub open spec fn invalid_path_message(path: Seq<char>) -> Seq<char> {
    "Error: "@ + quoted(path) + " is not a valid path!"@
}

/// Takes the canonical form of a path and whether a file stands there, and
/// gives the path where one does.
pub fn validate_file_path(canonical: &str, is_file: bool) -> (r: Result<String, MyMakeError>)
    ensures
        match r {
            Ok(p) => is_file && p@ == canonical@,
            Err(e) => !is_file && e@ == invalid_path_message(canonical@),
        },
{
    if is_file {
        Ok(String::from_str(canonical))
    } else {
        let details = String::from_str("Error: ").concat(debug_quoted(canonical).as_str()).concat(
            " is not a valid path!",
        );
        Err(MyMakeError::from(details.as_str()))
    }
}

/// `data` without comments: a comment is taken out once for each line of `data`.
pub fn remove_comments(data: &str) -> (r: String)
    ensures
        r@ == without_comments(data@, lines_of(data@).len()),
{
    remove_all_comments(data)
}

} // verus!
