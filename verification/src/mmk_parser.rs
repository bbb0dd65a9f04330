//! The description of one target in keyword form: keywords, each with the
//! arguments listed below it.

use vstd::prelude::*;
use vstd::string::*;
use crate::patterns::{captured, first_capture, replace_first, replaced};
use crate::registry::{key_of, lemma_key_of};
use crate::text::{
    chars_of, find_first, first_field, length_until, lines_of, same_text, second_field, slice_of,
    split_fields, split_lines, texts, trim, trim_end, trimmed, trimmed_end,
};
use crate::utility::{
    get_head_directory, head_of, parent_directory, parent_of, FsError, FsErrorView,
};

verus! {

/// Why a description could not be read.
#[derive(Debug, PartialEq, Eq, Clone)]
pub enum ParseError {
    /// A keyword that the language does not know.
    InvalidKeyword { file: String, keyword: String },
    /// A keyword stands where an argument or an empty line was expected.
    InvalidSpacing { file: String },
    /// The file of a description bears a name that is not accepted.
    InvalidFilename(String),
}

/// A `ParseError` over character sequences.
pub ghost enum ParseErrorView {
    InvalidKeyword { file: Seq<char>, keyword: Seq<char> },
    InvalidSpacing { file: Seq<char> },
    InvalidFilename(Seq<char>),
}

impl View for ParseError {
    type V = ParseErrorView;

    open spec fn view(&self) -> ParseErrorView {
        match self {
            ParseError::InvalidKeyword { file, keyword } => ParseErrorView::InvalidKeyword {
                file: file@,
                keyword: keyword@,
            },
            ParseError::InvalidSpacing { file } => ParseErrorView::InvalidSpacing { file: file@ },
            ParseError::InvalidFilename(name) => ParseErrorView::InvalidFilename(name@),
        }
    }
}

/// One argument of a keyword, with the option that may follow it on its line.
#[derive(Debug, PartialEq, Eq, Clone)]
pub struct Keyword {
    argument: String,
    option: String,
}

/// A `Keyword` over character sequences.
pub ghost struct KeywordView {
    pub argument: Seq<char>,
    pub option: Seq<char>,
}

impl View for Keyword {
    type V = KeywordView;

    closed spec fn view(&self) -> KeywordView {
        KeywordView { argument: self.argument@, option: self.option@ }
    }
}

impl Keyword {
    /// The argument `argument` without option.
    pub fn from(argument: &str) -> (r: Keyword)
        ensures
            r@ == (KeywordView { argument: argument@, option: Seq::empty() }),
    {
        Keyword { argument: String::from_str(argument), option: String::new() }
    }

    /// The same argument with the option `option`.
    pub fn with_option(self, option: &str) -> (r: Keyword)
        ensures
            r@ == (KeywordView { argument: self@.argument, option: option@ }),
    {
        Keyword { argument: self.argument, option: String::from_str(option) }
    }

    pub fn argument(&self) -> (r: &str)
        ensures
            r@ == self@.argument,
    {
        self.argument.as_str()
    }

    pub fn option(&self) -> (r: &str)
        ensures
            r@ == self@.option,
    {
        self.option.as_str()
    }
}

/// A keyword with its arguments.
#[derive(Debug, PartialEq, Eq, Clone)]
pub struct MmkEntry {
    pub key: String,
    pub args: Vec<Keyword>,
}

/// The arguments of a list, each over character sequences.
pub open spec fn keyword_views(args: Seq<Keyword>) -> Seq<KeywordView> {
    args.map_values(|k: Keyword| k@)
}

/// The keys of the entries, in order.
pub open spec fn keys_of_entries(entries: Seq<MmkEntry>) -> Seq<Seq<char>> {
    entries.map_values(|e: MmkEntry| e.key@)
}

/// The arguments that the entries hold for `key`: those of the entry of that key.
pub open spec fn lookup(entries: Seq<MmkEntry>, key: Seq<char>) -> Option<Seq<KeywordView>> {
    let at = key_of(keys_of_entries(entries), key);
    if at >= 0 {
        Some(keyword_views(entries[at].args@))
    } else {
        None
    }
}

/// The keys of the entries, in order.
pub open spec fn entry_keys(entries: Seq<EntryView>) -> Seq<Seq<char>> {
    entries.map_values(|e: EntryView| e.key)
}

/// No key occurs twice.
pub open spec fn distinct_keys(entries: Seq<EntryView>) -> bool {
    forall|i: int, j: int| 0 <= i < j < entries.len() ==> (#[trigger] entries[i]).key != (#[trigger] entries[j]).key
}

/// The entries with `entry` set: in place of the entry of its key where there
/// is one, else behind all others.
pub open spec fn inserted(entries: Seq<EntryView>, entry: EntryView) -> Seq<EntryView> {
    let at = key_of(entry_keys(entries), entry.key);
    if at >= 0 {
        entries.update(at, entry)
    } else {
        entries.push(entry)
    }
}

/// Setting an entry keeps the keys apart.
pub proof fn lemma_inserted_keeps_keys_apart(entries: Seq<EntryView>, entry: EntryView)
    requires
        distinct_keys(entries),
    ensures
        distinct_keys(inserted(entries, entry)),
{
    lemma_key_of(entry_keys(entries), entry.key);
    let at = key_of(entry_keys(entries), entry.key);
    let after = inserted(entries, entry);
    assert forall|i: int, j: int| 0 <= i < j < after.len() implies (#[trigger] after[i]).key != (#[trigger] after[j]).key by {
        if at >= 0 {
            assert(entry_keys(entries)[at] == entries[at].key);
            assert(after[i].key == entries[i].key);
            assert(after[j].key == entries[j].key);
        } else {
            if j == entries.len() {
                assert(entry_keys(entries)[i] == entries[i].key);
            }
        }
    }
}

/// `keyword` without the colons at its end.
pub open spec fn without_colons(keyword: Seq<char>) -> Seq<char>
    decreases keyword.len(),
{
    if keyword.len() > 0 && keyword.last() == ':' {
        without_colons(keyword.drop_last())
    } else {
        keyword
    }
}

/// Whether `keyword` is a keyword of the language.
pub open spec fn known_keyword(keyword: Seq<char>) -> bool {
    ||| keyword == "MMK_REQUIRE"@
    ||| keyword == "MMK_SOURCES"@
    ||| keyword == "MMK_HEADERS"@
    ||| keyword == "MMK_EXECUTABLE"@
    ||| keyword == "MMK_SYS_INCLUDE"@
    ||| keyword == "MMK_CXXFLAGS_APPEND"@
    ||| keyword == "MMK_CPPFLAGS_APPEND"@
    ||| keyword == "MMK_LIBRARY_LABEL"@
}

/// What stands before each argument of `key` when the arguments are listed on
/// one line: the option for system headers before those of `MMK_SYS_INCLUDE`.
pub open spec fn argument_prefix(key: Seq<char>) -> Seq<char> {
    if key == "MMK_SYS_INCLUDE"@ {
        "-isystem "@
    } else {
        Seq::empty()
    }
}

/// The arguments of `args` before the first empty one, each with `prefix` before it and a blank behind it.
pub open spec fn listed(prefix: Seq<char>, args: Seq<KeywordView>) -> Seq<char>
    decreases args.len(),
{
    if args.len() == 0 || args[0].argument.len() == 0 {
        Seq::empty()
    } else {
        prefix + args[0].argument + " "@ + listed(prefix, args.drop_first())
    }
}

/// The verdict on the name of a description's file.
pub open spec fn file_name_verdict(path: Seq<char>) -> Result<(), ParseErrorView> {
    if head_of(path) == "lib.mmk"@ || head_of(path) == "run.mmk"@ {
        Ok(())
    } else {
        Err(ParseErrorView::InvalidFilename(head_of(path)))
    }
}

/// The verdict on a path, given its canonical form, if it has one, and whether a file stands there.
pub open spec fn file_path_verdict(path: Seq<char>, canonical: Option<Seq<char>>, is_file: bool) -> Result<
    Seq<char>,
    FsErrorView,
> {
    match canonical {
        None => Err(FsErrorView::Canonicalize(path)),
        Some(c) => if is_file {
            Ok(c)
        } else {
            Err(FsErrorView::FileDoesNotExist(c))
        },
    }
}

/// `keyword` without the colons at its end.
pub fn strip_colons(keyword: &str) -> (r: String)
    ensures
        r@ == without_colons(keyword@),
{
    let chars = chars_of(keyword);
    let mut k: usize = chars.len();
    assert(keyword@.take(k as int) =~= keyword@);
    while k > 0 && chars[k - 1] == ':'
        invariant
            chars@ == keyword@,
            k <= chars.len(),
            without_colons(keyword@) == without_colons(keyword@.take(k as int)),
        decreases k,
    {
        assert(keyword@.take(k as int).drop_last() =~= keyword@.take(k - 1));
        k -= 1;
    }
    slice_of(keyword, 0, k)
}

/// Whether `keyword` is a keyword of the language.
pub fn is_known_keyword(keyword: &str) -> (r: bool)
    ensures
        r == known_keyword(keyword@),
{
    same_text(keyword, "MMK_REQUIRE") || same_text(keyword, "MMK_SOURCES") || same_text(keyword, "MMK_HEADERS")
        || same_text(keyword, "MMK_EXECUTABLE") || same_text(keyword, "MMK_SYS_INCLUDE") || same_text(
        keyword,
        "MMK_CXXFLAGS_APPEND",
    ) || same_text(keyword, "MMK_CPPFLAGS_APPEND") || same_text(keyword, "MMK_LIBRARY_LABEL")
}

/// Checks that the file of a description is named `lib.mmk` or `run.mmk`.
pub fn validate_file_name(path: &str) -> (r: Result<(), ParseError>)
    ensures
        match r {
            Ok(()) => file_name_verdict(path@) == Ok::<(), ParseErrorView>(()),
            Err(e) => file_name_verdict(path@) == Err::<(), ParseErrorView>(e@),
        },
{
    let name = get_head_directory(path);
    if same_text(name.as_str(), "lib.mmk") || same_text(name.as_str(), "run.mmk") {
        Ok(())
    } else {
        Err(ParseError::InvalidFilename(name))
    }
}

/// Takes the canonical form of `path`, if it has one, and whether a file
/// stands there, and gives the canonical path of the file.
pub fn validate_file_path(path: &str, canonical: Option<&str>, is_file: bool) -> (r: Result<String, FsError>)
    ensures
        match r {
            Ok(p) => file_path_verdict(path@, match canonical { Some(c) => Some(c@), None => None }, is_file)
                == Ok::<Seq<char>, FsErrorView>(p@),
            Err(e) => file_path_verdict(path@, match canonical { Some(c) => Some(c@), None => None }, is_file)
                == Err::<Seq<char>, FsErrorView>(e@),
        },
{
    match canonical {
        None => Err(FsError::Canonicalize(String::from_str(path))),
        Some(c) => if is_file {
            Ok(String::from_str(c))
        } else {
            Err(FsError::FileDoesNotExist(String::from_str(c)))
        },
    }
}

/// A named text that arguments may refer to as `${name}`.
#[derive(Debug, PartialEq, Eq, Clone)]
pub struct Constant {
    pub name: String,
    pub value: String,
}

/// The constants of one description. Of two constants of one name the first counts.
#[derive(Debug, PartialEq, Eq, Clone)]
pub struct Constants {
    list: Vec<Constant>,
}

/// The value of the first constant named `name`.
pub open spec fn value_of(list: Seq<Constant>, name: Seq<char>) -> Option<Seq<char>>
    decreases list.len(),
{
    if list.len() == 0 {
        None
    } else if list[0].name@ == name {
        Some(list[0].value@)
    } else {
        value_of(list.drop_first(), name)
    }
}

/// Where a reference in `text` begins and ends: the position of its `$` and
/// that of its `}`. Only the first `$` of the text is looked at.
pub open spec fn reference_in(text: Seq<char>) -> Option<(int, int)> {
    let dollar = length_until(text, '$') as int;
    if dollar + 1 < text.len() && text[dollar + 1] == '{' {
        let close = dollar + 2 + length_until(text.skip(dollar + 2), '}') as int;
        if close < text.len() {
            Some((dollar, close))
        } else {
            None
        }
    } else {
        None
    }
}

/// The name of the constant that `text` refers to, if it refers to one.
pub open spec fn constant_in(text: Seq<char>) -> Option<Seq<char>> {
    match reference_in(text) {
        Some((dollar, close)) => Some(text.subrange(dollar + 2, close)),
        None => None,
    }
}

/// `text` with the value of the constant it refers to in place of the
/// reference; `text` itself where it refers to none, or to one that is not known.
pub open spec fn with_constant(list: Seq<Constant>, text: Seq<char>) -> Seq<char> {
    match reference_in(text) {
        Some((dollar, close)) => match value_of(list, text.subrange(dollar + 2, close)) {
            Some(value) => text.take(dollar) + value + text.skip(close + 1),
            None => text,
        },
        None => text,
    }
}

impl Constants {
    /// The constants, in the order of their definition.
    pub closed spec fn items(&self) -> Seq<Constant> {
        self.list@
    }

    /// The constants of the description at `path`: `project_top` is its directory.
    pub fn new(path: &str) -> (r: Constants)
        ensures
            r.items().len() == 1,
            r.items()[0].name@ == "project_top"@,
            r.items()[0].value@ == match parent_of(path@) {
                Some(p) => p,
                None => Seq::empty(),
            },
    {
        let top = match parent_directory(path) {
            Some(p) => p,
            None => String::new(),
        };
        let mut list: Vec<Constant> = Vec::new();
        list.push(Constant { name: String::from_str("project_top"), value: top });
        Constants { list }
    }

    /// Defines the constant `name` behind those defined before: an earlier
    /// constant of the same name keeps its value.
    pub fn add(&mut self, name: &str, value: &str)
        ensures
            final(self).items() == old(self).items().push(Constant { name: final(self).items().last().name, value: final(self).items().last().value }),
            final(self).items().last().name@ == name@,
            final(self).items().last().value@ == value@,
    {
        self.list.push(Constant { name: String::from_str(name), value: String::from_str(value) });
        assert(self.list@ =~= old(self).list@.push(self.list@.last()));
    }

    /// The value of the constant `name`.
    pub fn get_item(&self, name: &str) -> (r: Option<String>)
        ensures
            match r {
                Some(value) => value_of(self.items(), name@) == Some(value@),
                None => value_of(self.items(), name@) is None,
            },
    {
        let mut i: usize = 0;
        assert(self.list@.skip(0) =~= self.list@);
        while i < self.list.len()
            invariant
                i <= self.list.len(),
                value_of(self.list@, name@) == value_of(self.list@.skip(i as int), name@),
            decreases self.list.len() - i,
        {
            let ghost rest = self.list@.skip(i as int);
            assert(rest[0] == self.list@[i as int]);
            if same_text(self.list[i].name.as_str(), name) {
                return Some(self.list[i].value.clone());
            }
            assert(rest.drop_first() =~= self.list@.skip(i + 1));
            i += 1;
        }
        None
    }

    /// The name of the constant that `text` refers to.
    pub fn get_constant(&self, text: &str) -> (r: Option<String>)
        ensures
            match r {
                Some(name) => constant_in(text@) == Some(name@),
                None => constant_in(text@) is None,
            },
    {
        match find_reference(text) {
            Some((dollar, close)) => Some(slice_of(text, dollar + 2, close)),
            None => None,
        }
    }
}

/// Where the reference in `text` begins and ends.
pub fn find_reference(text: &str) -> (r: Option<(usize, usize)>)
    ensures
        match r {
            Some((dollar, close)) => dollar + 2 <= close < text@.len() && reference_in(text@) == Some(
                (dollar as int, close as int),
            ),
            None => reference_in(text@) is None,
        },
{
    let chars = chars_of(text);
    let n = chars.len();
    let dollar = find_first(&chars, 0, '$');
    assert(text@.skip(0) =~= text@);
    if n >= 2 && dollar < n - 1 && chars[dollar + 1] == '{' {
        let close = find_first(&chars, dollar + 2, '}');
        if close < n {
            Some((dollar, close))
        } else {
            None
        }
    } else {
        None
    }
}

/// The description of one target.
#[derive(Debug, PartialEq, Eq, Clone)]
pub struct Mmk {
    data: Vec<MmkEntry>,
    constants: Constants,
    file: String,
}

impl Mmk {
    /// The entries, oldest first.
    pub closed spec fn entries(&self) -> Seq<MmkEntry> {
        self.data@
    }

    /// The path of the description.
    pub closed spec fn path(&self) -> Seq<char> {
        self.file@
    }

    /// The constants that arguments may refer to.
    pub closed spec fn constants(&self) -> Seq<Constant> {
        self.constants.items()
    }

    /// A description is valid when no keyword has two entries.
    pub closed spec fn wf(&self) -> bool {
        distinct_keys(entry_views(self.data@))
    }

    /// The empty description at `path`.
    pub fn new(path: &str) -> (r: Mmk)
        ensures
            r.wf(),
            r.entries().len() == 0,
            r.path() == path@,
            r.constants().len() == 1,
            r.constants()[0].name@ == "project_top"@,
            r.constants()[0].value@ == match parent_of(path@) {
                Some(p) => p,
                None => Seq::empty(),
            },
    {
        Mmk { data: Vec::new(), constants: Constants::new(path), file: String::from_str(path) }
    }

    pub fn file(&self) -> (r: String)
        ensures
            r@ == self.path(),
    {
        self.file.clone()
    }

    pub fn data(&self) -> (r: &Vec<MmkEntry>)
        ensures
            r@ == self.entries(),
    {
        &self.data
    }

    /// The entries, to be changed in place. What is changed through this is not
    /// held to the rule that no keyword has two entries.
    pub fn data_mut(&mut self) -> (r: &mut Vec<MmkEntry>)
        ensures
            r@ == old(self).entries(),
            final(self).path() == old(self).path(),
            final(self).constants() == old(self).constants(),
            final(self).entries() == final(r)@,
    {
        &mut self.data
    }

    /// The place of the entry of `key`.
    fn position(&self, key: &str) -> (r: Option<usize>)
        ensures
            match r {
                Some(at) => at < self.entries().len() && at as int == key_of(keys_of_entries(self.entries()), key@),
                None => key_of(keys_of_entries(self.entries()), key@) == -1,
            },
    {
        let ghost keys = keys_of_entries(self.data@);
        proof {
            lemma_key_of(keys, key@);
        }
        let mut i: usize = 0;
        while i < self.data.len()
            invariant
                i <= self.data.len(),
                keys == keys_of_entries(self.data@),
                forall|j: int| 0 <= j < i ==> keys[j] != key@,
            decreases self.data.len() - i,
        {
            assert(keys[i as int] == self.data@[i as int].key@);
            if same_text(self.data[i].key.as_str(), key) {
                proof {
                    lemma_key_of(keys, key@);
                }
                return Some(i);
            }
            i += 1;
        }
        None
    }

    /// Sets the arguments of `key`, in place of those it had.
    pub fn insert(&mut self, key: &str, args: Vec<Keyword>)
        requires
            old(self).wf(),
        ensures
            final(self).wf(),
            final(self).path() == old(self).path(),
            final(self).constants() == old(self).constants(),
            entry_views(final(self).entries()) == inserted(
                entry_views(old(self).entries()),
                EntryView { key: key@, args: keyword_views(args@) },
            ),
            forall|k: Seq<char>| lookup(final(self).entries(), k) == if k == key@ {
                Some(keyword_views(args@))
            } else {
                lookup(old(self).entries(), k)
            },
    {
        let ghost before = self.data@;
        let ghost keys = keys_of_entries(before);
        let ghost entry = EntryView { key: key@, args: keyword_views(args@) };
        proof {
            assert(entry_keys(entry_views(before)) =~= keys);
            lemma_inserted_keeps_keys_apart(entry_views(before), entry);
            lemma_key_of(keys, key@);
        }
        match self.position(key) {
            Some(at) => {
                self.data.set(at, MmkEntry { key: String::from_str(key), args });
                proof {
                    assert(keys[at as int] == before[at as int].key@);
                    assert(keys_of_entries(self.data@) =~= keys);
                    assert(entry_views(self.data@) =~= inserted(entry_views(before), entry));
                    assert forall|k: Seq<char>| lookup(self.data@, k) == if k == key@ {
                        Some(keyword_views(args@))
                    } else {
                        lookup(before, k)
                    } by {
                        lemma_key_of(keys, k);
                        let found = key_of(keys, k);
                        if found >= 0 {
                            assert(keys[found] == before[found].key@);
                        }
                    }
                }
            },
            None => {
                self.data.push(MmkEntry { key: String::from_str(key), args });
                proof {
                    let after = keys_of_entries(self.data@);
                    assert(after =~= keys.push(key@));
                    assert(after.drop_last() =~= keys);
                    assert(entry_views(self.data@) =~= inserted(entry_views(before), entry));
                    assert forall|k: Seq<char>| lookup(self.data@, k) == if k == key@ {
                        Some(keyword_views(args@))
                    } else {
                        lookup(before, k)
                    } by {
                        lemma_key_of(keys, k);
                        let found = key_of(keys, k);
                        if found >= 0 {
                            assert(self.data@[found] == before[found]);
                        }
                    }
                }
            },
        }
    }

    /// The arguments of `key`, whether or not `key` is a keyword of the language.
    pub fn find(&self, key: &str) -> (r: Option<&Vec<Keyword>>)
        ensures
            match r {
                Some(args) => lookup(self.entries(), key@) == Some(keyword_views(args@)),
                None => lookup(self.entries(), key@) is None,
            },
    {
        match self.position(key) {
            Some(at) => Some(&self.data[at].args),
            None => None,
        }
    }

    pub fn has_executables(&self) -> (r: bool)
        ensures
            r == lookup(self.entries(), "MMK_EXECUTABLE"@) is Some,
    {
        self.find("MMK_EXECUTABLE").is_some()
    }

    pub fn has_dependencies(&self) -> (r: bool)
        ensures
            r == lookup(self.entries(), "MMK_REQUIRE"@) is Some,
    {
        self.find("MMK_REQUIRE").is_some()
    }

    pub fn has_library_label(&self) -> (r: bool)
        ensures
            r == lookup(self.entries(), "MMK_LIBRARY_LABEL"@) is Some,
    {
        self.find("MMK_LIBRARY_LABEL").is_some()
    }

    pub fn has_system_include(&self) -> (r: bool)
        ensures
            r == lookup(self.entries(), "MMK_SYS_INCLUDE"@) is Some,
    {
        self.find("MMK_SYS_INCLUDE").is_some()
    }

    /// Checks that `keyword`, without the colons at its end, is a keyword of the language.
    pub fn valid_keyword(&self, keyword: &str) -> (r: Result<(), ParseError>)
        ensures
            match r {
                Ok(()) => known_keyword(without_colons(keyword@)),
                Err(e) => !known_keyword(without_colons(keyword@)) && e@ == (ParseErrorView::InvalidKeyword {
                    file: self.path(),
                    keyword: without_colons(keyword@),
                }),
            },
    {
        let stripped = strip_colons(keyword);
        if is_known_keyword(stripped.as_str()) {
            Ok(())
        } else {
            Err(ParseError::InvalidKeyword { file: self.file.clone(), keyword: stripped })
        }
    }

    /// The arguments of `key`, where `key` is a keyword of the language and has any.
    pub fn get_args(&self, key: &str) -> (r: Option<&Vec<Keyword>>)
        ensures
            match r {
                Some(args) => known_keyword(without_colons(key@)) && lookup(self.entries(), key@) == Some(
                    keyword_views(args@),
                ),
                None => !known_keyword(without_colons(key@)) || lookup(self.entries(), key@) is None,
            },
    {
        if self.valid_keyword(key).is_err() {
            None
        } else {
            self.find(key)
        }
    }

    /// The arguments of `key` on one line, up to the first empty one: each
    /// behind the option that its keyword calls for, a blank between each two.
    pub fn to_string(&self, key: &str) -> (r: String)
        ensures
            r@ == trimmed_end(
                listed(
                    argument_prefix(key@),
                    match lookup(self.entries(), key@) {
                        Some(args) => args,
                        None => Seq::empty(),
                    },
                ),
            ),
    {
        let prefix = if same_text(key, "MMK_SYS_INCLUDE") {
            "-isystem "
        } else {
            ""
        };
        proof {
            reveal_strlit("");
            assert(""@ =~= Seq::<char>::empty());
        }
        let mut out = String::new();
        match self.find(key) {
            Some(args) => {
                let ghost views = keyword_views(args@);
                let mut i: usize = 0;
                let mut done = false;
                assert(views.skip(0) =~= views);
                assert(out@ + listed(prefix@, views) =~= listed(prefix@, views));
                while i < args.len() && !done
                    invariant
                        i <= args.len(),
                        views == keyword_views(args@),
                        done ==> out@ == listed(prefix@, views),
                        !done ==> out@ + listed(prefix@, views.skip(i as int)) == listed(prefix@, views),
                    decreases args.len() - i + if done { 0int } else { 1int },
                {
                    let ghost rest = views.skip(i as int);
                    let ghost before = out@;
                    assert(rest[0] == args@[i as int]@);
                    let argument = args[i].argument();
                    if argument.unicode_len() == 0 {
                        assert(listed(prefix@, rest) =~= Seq::<char>::empty());
                        assert(out@ =~= listed(prefix@, views));
                        done = true;
                    } else {
                        out.append(prefix);
                        out.append(argument);
                        out.append(" ");
                        proof {
                            assert(rest.drop_first() =~= views.skip(i + 1));
                            assert(out@ + listed(prefix@, views.skip(i + 1)) =~= before + listed(prefix@, rest));
                        }
                        i += 1;
                    }
                }
                proof {
                    if !done {
                        assert(views.skip(i as int) =~= Seq::<KeywordView>::empty());
                        assert(out@ + Seq::<char>::empty() =~= out@);
                    }
                }
            },
            None => {
                assert(out@ =~= listed(prefix@, Seq::<KeywordView>::empty()));
            },
        }
        trim_end(out.as_str())
    }

    /// The directory that holds `source`.
    pub fn source_file_path(&self, source: &str) -> (r: Option<String>)
        ensures
            match r {
                Some(p) => parent_of(source@) == Some(p@),
                None => parent_of(source@) is None,
            },
    {
        parent_directory(source)
    }

    /// `value` with the value of the constant it refers to in place of the reference.
    pub fn replace_constant_with_value(&self, value: &str) -> (r: String)
        ensures
            r@ == with_constant(self.constants(), value@),
    {
        match find_reference(value) {
            Some((dollar, close)) => {
                let name = slice_of(value, dollar + 2, close);
                match self.constants.get_item(name.as_str()) {
                    Some(item) => {
                        let n = value.unicode_len();
                        let head = slice_of(value, 0, dollar);
                        let tail = slice_of(value, close + 1, n);
                        assert(head@ =~= value@.take(dollar as int));
                        assert(tail@ =~= value@.skip(close + 1));
                        head.concat(item.as_str()).concat(tail.as_str())
                    },
                    None => String::from_str(value),
                }
            },
            None => String::from_str(value),
        }
    }

    /// The argument that `line` holds: its first field, with the value of the
    /// constant it refers to, and as option its second field, where it has one.
    pub fn parse_and_create_keyword(&self, line: &str) -> (r: Keyword)
        ensures
            r@ == keyword_of(self.constants(), line@),
    {
        let (argument, option) = split_fields(line);
        let keyword = Keyword::from(self.replace_constant_with_value(argument.as_str()).as_str());
        match option {
            Some(option) => keyword.with_option(option.as_str()),
            None => keyword,
        }
    }
}

/// The argument that a line holds.
pub open spec fn keyword_of(constants: Seq<Constant>, line: Seq<char>) -> KeywordView {
    KeywordView {
        argument: with_constant(constants, first_field(line)),
        option: match second_field(line) {
            Some(option) => option,
            None => Seq::empty(),
        },
    }
}

/// The regular expression of a line that opens an expression: a keyword and a colon.
pub open spec fn rule_pattern() -> Seq<char> {
    "(MMK_\\w+):[\\r\\n]*"@
}

/// The regular expression of a comment: from a `#` to the end of its line.
pub open spec fn comment_pattern() -> Seq<char> {
    "#.*"@
}

/// `text` without its first comment.
pub open spec fn without_first_comment(text: Seq<char>) -> Seq<char> {
    match replaced(comment_pattern(), text, Seq::empty()) {
        Some(t) => t,
        None => text,
    }
}

/// `text` after its first comment was taken out `n` times over.
pub open spec fn without_comments(text: Seq<char>, n: nat) -> Seq<char>
    decreases n,
{
    if n == 0 {
        text
    } else {
        without_comments(without_first_comment(text), (n - 1) as nat)
    }
}

/// `data` without comments: a comment is taken out once for each line of `data`.
pub fn remove_comments(data: &str) -> (r: String)
    ensures
        r@ == without_comments(data@, lines_of(data@).len()),
{
    proof {
        reveal_strlit("");
        assert(""@ =~= Seq::<char>::empty());
    }
    let count = split_lines(data).len();
    let mut text = String::from_str(data);
    let mut i: usize = 0;
    while i < count
        invariant
            i <= count,
            ""@ == Seq::<char>::empty(),
            without_comments(data@, count as nat) == without_comments(text@, (count - i) as nat),
        decreases count - i,
    {
        match replace_first("#.*", text.as_str(), "") {
            Some(t) => {
                text = t;
            },
            None => {},
        }
        i += 1;
    }
    text
}

/// Whether `line` holds an argument: something that is no keyword.
pub open spec fn is_argument_line(line: Seq<char>) -> bool {
    trimmed(line).len() > 0 && !known_keyword(without_colons(trimmed(line)))
}

/// The number of lines from `start` on that hold arguments, up to the first that holds none.
pub open spec fn argument_count(lines: Seq<Seq<char>>, start: int) -> nat
    decreases lines.len() - start,
{
    if 0 <= start < lines.len() && is_argument_line(lines[start]) {
        1 + argument_count(lines, start + 1)
    } else {
        0
    }
}

/// The arguments that the lines from `start` on hold.
pub open spec fn expression_arguments(constants: Seq<Constant>, lines: Seq<Seq<char>>, start: int) -> Seq<KeywordView> {
    Seq::new(argument_count(lines, start), |k: int| keyword_of(constants, trimmed(lines[start + k])))
}

/// Whether the arguments from `start` on end as they must: at an empty line or
/// at the end of the text, not at a keyword.
pub open spec fn well_spaced(lines: Seq<Seq<char>>, start: int) -> bool {
    let end = start + argument_count(lines, start);
    end >= lines.len() || trimmed(lines[end]).len() == 0
}

/// The number of the line behind the expression that line `i` opens: behind
/// the line at which its arguments end, but not behind the end of the text.
pub open spec fn next_expression(lines: Seq<Seq<char>>, i: int) -> int {
    let end = i + 1 + argument_count(lines, i + 1);
    if end < lines.len() {
        end + 1
    } else {
        lines.len() as int
    }
}

/// An entry over character sequences.
pub ghost struct EntryView {
    pub key: Seq<char>,
    pub args: Seq<KeywordView>,
}

/// The entries of a list, each over character sequences.
pub open spec fn entry_views(entries: Seq<MmkEntry>) -> Seq<EntryView> {
    entries.map_values(|e: MmkEntry| EntryView { key: e.key@, args: keyword_views(e.args@) })
}

/// The entries that the lines from `i` on add to `entries`, or the first error in them.
///
/// A line that opens an expression is followed by its arguments, one to a
/// line, up to an empty line or the end. Any other line is passed over.
pub open spec fn parse_lines(
    file: Seq<char>,
    constants: Seq<Constant>,
    lines: Seq<Seq<char>>,
    i: int,
    entries: Seq<EntryView>,
) -> Result<Seq<EntryView>, ParseErrorView>
    decreases lines.len() - i,
{
    if i < 0 || i >= lines.len() {
        Ok(entries)
    } else {
        match captured(rule_pattern(), lines[i]) {
            None => parse_lines(file, constants, lines, i + 1, entries),
            Some(keyword) => if !known_keyword(without_colons(keyword)) {
                Err(ParseErrorView::InvalidKeyword { file, keyword: without_colons(keyword) })
            } else if !well_spaced(lines, i + 1) {
                Err(ParseErrorView::InvalidSpacing { file })
            } else {
                parse_lines(
                    file,
                    constants,
                    lines,
                    next_expression(lines, i),
                    inserted(entries, EntryView { key: keyword, args: expression_arguments(constants, lines, i + 1) }),
                )
            },
        }
    }
}

impl Mmk {
    /// Reads the arguments of `keyword` from the lines from `start` on, and
    /// sets them. Returns the number of the line at which the arguments end.
    pub fn parse_mmk_expression(&mut self, keyword: &str, lines: &Vec<String>, start: usize) -> (r: Result<
        usize,
        ParseError,
    >)
        requires
            old(self).wf(),
            start <= lines.len(),
        ensures
            final(self).wf(),
            final(self).path() == old(self).path(),
            final(self).constants() == old(self).constants(),
            match r {
                Ok(end) => {
                    &&& known_keyword(without_colons(keyword@))
                    &&& well_spaced(texts(lines@), start as int)
                    &&& end == start + argument_count(texts(lines@), start as int)
                    &&& end <= lines.len()
                    &&& entry_views(final(self).entries()) == inserted(
                        entry_views(old(self).entries()),
                        EntryView {
                            key: keyword@,
                            args: expression_arguments(old(self).constants(), texts(lines@), start as int),
                        },
                    )
                },
                Err(e) => {
                    &&& final(self).entries() == old(self).entries()
                    &&& if !known_keyword(without_colons(keyword@)) {
                        e@ == (ParseErrorView::InvalidKeyword { file: old(self).path(), keyword: without_colons(keyword@) })
                    } else {
                        !well_spaced(texts(lines@), start as int) && e@ == (ParseErrorView::InvalidSpacing {
                            file: old(self).path(),
                        })
                    }
                },
            },
    {
        match self.valid_keyword(keyword) {
            Ok(()) => {},
            Err(e) => {
                return Err(e);
            },
        }
        let ghost all = texts(lines@);
        let ghost constants = self.constants();
        let mut args: Vec<Keyword> = Vec::new();
        let mut i: usize = start;
        let mut done = false;
        while i < lines.len() && !done
            invariant
                start <= i <= lines.len(),
                all == texts(lines@),
                constants == self.constants(),
                *self == *old(self),
                args.len() == i - start,
                argument_count(all, start as int) == (i - start) + argument_count(all, i as int),
                done ==> !is_argument_line(all[i as int]) && i < lines.len(),
                forall|k: int| 0 <= k < args.len() ==> (#[trigger] args@[k])@ == keyword_of(constants, trimmed(all[start + k])),
            decreases lines.len() - i + if done { 0int } else { 1int },
        {
            assert(all[i as int] == lines@[i as int]@);
            let line = trim(lines[i].as_str());
            if line.as_str().unicode_len() > 0 && self.valid_keyword(line.as_str()).is_err() {
                args.push(self.parse_and_create_keyword(line.as_str()));
                i += 1;
            } else {
                done = true;
            }
        }
        proof {
            assert(argument_count(all, i as int) == 0);
            assert(keyword_views(args@) =~= expression_arguments(constants, all, start as int));
        }
        if i < lines.len() {
            assert(all[i as int] == lines@[i as int]@);
            let line = trim(lines[i].as_str());
            if line.as_str().unicode_len() > 0 {
                return Err(ParseError::InvalidSpacing { file: self.file.clone() });
            }
        }
        self.insert(keyword, args);
        Ok(i)
    }

    /// Reads a description: takes out the comments, then reads the expressions,
    /// each of which sets the arguments of its keyword.
    pub fn parse(&mut self, data: &str) -> (r: Result<(), ParseError>)
        requires
            old(self).wf(),
        ensures
            final(self).wf(),
            final(self).path() == old(self).path(),
            final(self).constants() == old(self).constants(),
            match r {
                Ok(()) => parse_lines(
                    old(self).path(),
                    old(self).constants(),
                    lines_of(without_comments(data@, lines_of(data@).len())),
                    0,
                    entry_views(old(self).entries()),
                ) == Ok::<Seq<EntryView>, ParseErrorView>(entry_views(final(self).entries())),
                Err(e) => parse_lines(
                    old(self).path(),
                    old(self).constants(),
                    lines_of(without_comments(data@, lines_of(data@).len())),
                    0,
                    entry_views(old(self).entries()),
                ) == Err::<Seq<EntryView>, ParseErrorView>(e@),
            },
    {
        let text = remove_comments(data);
        let lines = split_lines(text.as_str());
        let ghost all = texts(lines@);
        let ghost file = self.path();
        let ghost constants = self.constants();
        let ghost wanted = parse_lines(file, constants, all, 0, entry_views(self.entries()));
        let mut i: usize = 0;
        while i < lines.len()
            invariant
                all == texts(lines@),
                file == self.path(),
                constants == self.constants(),
                file == old(self).path(),
                constants == old(self).constants(),
                all == lines_of(without_comments(data@, lines_of(data@).len())),
                wanted == parse_lines(file, constants, all, 0, entry_views(old(self).entries())),
                self.wf(),
                i <= lines.len(),
                wanted == parse_lines(file, constants, all, i as int, entry_views(self.entries())),
            decreases lines.len() - i,
        {
            assert(all[i as int] == lines@[i as int]@);
            let ghost before = entry_views(self.entries());
            match first_capture("(MMK_\\w+):[\\r\\n]*", lines[i].as_str()) {
                Some(keyword) => {
                    assert(captured(rule_pattern(), all[i as int]) == Some(keyword@));
                    match self.parse_mmk_expression(keyword.as_str(), &lines, i + 1) {
                        Ok(end) => {
                            assert(wanted == parse_lines(
                                file,
                                constants,
                                all,
                                next_expression(all, i as int),
                                entry_views(self.entries()),
                            ));
                            if end < lines.len() {
                                i = end + 1;
                            } else {
                                i = end;
                            }
                        },
                        Err(e) => {
                            assert(entry_views(self.entries()) == before);
                            assert(wanted == Err::<Seq<EntryView>, ParseErrorView>(e@));
                            return Err(e);
                        },
                    }
                },
                None => {
                    i += 1;
                },
            }
        }
        Ok(())
    }

    /// The include paths of the requirements on one line. `resolved[i]` is the
    /// directory of headers found for requirement `i`, if one was found. The
    /// first requirement without one decides the error.
    pub fn get_include_directories(&self, resolved: &Vec<Option<String>>) -> (r: Result<String, FsError>)
        ensures
            match r {
                Ok(text) => include_flags(
                    match lookup(self.entries(), "MMK_REQUIRE"@) {
                        Some(args) => args,
                        None => Seq::empty(),
                    },
                    resolved@,
                    0,
                ) == Ok::<Seq<char>, FsErrorView>(text@),
                Err(e) => include_flags(
                    match lookup(self.entries(), "MMK_REQUIRE"@) {
                        Some(args) => args,
                        None => Seq::empty(),
                    },
                    resolved@,
                    0,
                ) == Err::<Seq<char>, FsErrorView>(e@),
            },
    {
        let args = match self.find("MMK_REQUIRE") {
            Some(args) => args,
            None => {
                let empty = String::new();
                assert(trimmed_end(Seq::<char>::empty()) =~= Seq::<char>::empty());
                return Ok(empty);
            },
        };
        let ghost views = keyword_views(args@);
        let mut out = String::new();
        let mut i: usize = 0;
        assert(out@ + Seq::<char>::empty() =~= Seq::<char>::empty());
        while i < args.len()
            invariant
                i <= args.len(),
                views == keyword_views(args@),
                lookup(self.entries(), "MMK_REQUIRE"@) == Some(views),
                include_list(views, resolved@, 0) == match include_list(views, resolved@, i as int) {
                    Ok(rest) => Ok::<Seq<char>, FsErrorView>(out@ + rest),
                    Err(e) => Err::<Seq<char>, FsErrorView>(e),
                },
            decreases args.len() - i,
        {
            assert(views[i as int] == args@[i as int]@);
            let ghost before = out@;
            let directory: &str = if i < resolved.len() {
                match &resolved[i] {
                    Some(d) => d.as_str(),
                    None => {
                        let error = FsError::IncludeDirectoryNotFound(String::from_str(args[i].argument()));
                        proof {
                            assert(resolved_at(resolved@, i as int) is None);
                            assert(include_list(views, resolved@, i as int) == Err::<Seq<char>, FsErrorView>(error@));
                            assert(lookup(self.entries(), "MMK_REQUIRE"@) == Some(views));
                        }
                        return Err(error);
                    },
                }
            } else {
                let error = FsError::IncludeDirectoryNotFound(String::from_str(args[i].argument()));
                proof {
                    assert(resolved_at(resolved@, i as int) is None);
                    assert(include_list(views, resolved@, i as int) == Err::<Seq<char>, FsErrorView>(error@));
                    assert(lookup(self.entries(), "MMK_REQUIRE"@) == Some(views));
                }
                return Err(error);
            };
            assert(resolved_at(resolved@, i as int) == Some(directory@));
            if same_text(args[i].option(), "SYSTEM") {
                out.append("-isystem ");
            } else {
                out.append("-I");
            }
            out.append(directory);
            out.append(" ");
            proof {
                match include_list(views, resolved@, i + 1) {
                    Ok(rest) => {
                        assert(out@ + rest =~= before + (include_option(views[i as int].option) + directory@ + " "@ + rest));
                    },
                    Err(_) => {},
                }
            }
            i += 1;
        }
        proof {
            assert(out@ + Seq::<char>::empty() =~= out@);
        }
        Ok(trim_end(out.as_str()))
    }
}

/// The option that opens the search path of a requirement: that of system
/// headers where the requirement is marked `SYSTEM`.
pub open spec fn include_option(option: Seq<char>) -> Seq<char> {
    if option == "SYSTEM"@ {
        "-isystem "@
    } else {
        "-I"@
    }
}

/// What `resolved` holds for requirement `i`.
pub open spec fn resolved_at(resolved: Seq<Option<String>>, i: int) -> Option<Seq<char>> {
    if 0 <= i < resolved.len() {
        match resolved[i] {
            Some(d) => Some(d@),
            None => None,
        }
    } else {
        None
    }
}

/// The include paths of the requirements from number `i` on, a blank behind each.
pub open spec fn include_list(args: Seq<KeywordView>, resolved: Seq<Option<String>>, i: int) -> Result<
    Seq<char>,
    FsErrorView,
>
    decreases args.len() - i,
{
    if i < 0 || i >= args.len() {
        Ok(Seq::empty())
    } else {
        match resolved_at(resolved, i) {
            None => Err(FsErrorView::IncludeDirectoryNotFound(args[i].argument)),
            Some(directory) => match include_list(args, resolved, i + 1) {
                Ok(rest) => Ok(include_option(args[i].option) + directory + " "@ + rest),
                Err(e) => Err(e),
            },
        }
    }
}

/// The include paths of the requirements on one line, a blank between each two.
pub open spec fn include_flags(args: Seq<KeywordView>, resolved: Seq<Option<String>>, i: int) -> Result<
    Seq<char>,
    FsErrorView,
> {
    match include_list(args, resolved, i) {
        Ok(text) => Ok(trimmed_end(text)),
        Err(e) => Err(e),
    }
}

/// What an error says to the user.
pub open spec fn parse_error_message(e: ParseErrorView) -> Seq<char> {
    match e {
        ParseErrorView::InvalidKeyword { file, keyword } => keyword + " is not a valid keyword."@,
        ParseErrorView::InvalidSpacing { file } => file + ": Invalid spacing of arguments! Keep at least one line between each keyword."@,
        ParseErrorView::InvalidFilename(name) => name + " is illegal name! File must be named lib.mmk or run.mmk."@,
    }
}

impl ParseError {
    /// What the error says to the user.
    pub fn to_string(&self) -> (r: String)
        ensures
            r@ == parse_error_message(self@),
    {
        match self {
            ParseError::InvalidKeyword { file, keyword } => keyword.clone().concat(" is not a valid keyword."),
            ParseError::InvalidSpacing { file } => file.clone().concat(
                ": Invalid spacing of arguments! Keep at least one line between each keyword.",
            ),
            ParseError::InvalidFilename(name) => name.clone().concat(
                " is illegal name! File must be named lib.mmk or run.mmk.",
            ),
        }
    }
}

} // verus!
