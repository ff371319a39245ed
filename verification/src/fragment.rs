//! Changelog fragments.

use std::path::PathBuf;
use std::str::FromStr;

use vstd::prelude::*;
use vstd::string::StringExecFns;

use crate::list::reversed;
use crate::text::{parse_integer_in, parsed_integer, substring, to_chars, trim, trimmed};

verus! {

/// Represents integer IDs of fragments.
pub type Integer = u32;

/// The prefix used for non-integer fragment IDs.
pub const STRING_PREFIX: char = '~';

/// The character that separates the parts of fragment names.
pub const DOT: char = '.';

/// Represents fragment IDs.
#[derive(Debug, Clone, PartialEq, Eq, PartialOrd, Ord)]
pub enum Id {
    /// Integer fragment ID.
    Integer(Integer),
    /// String fragment ID.
    String(String),
}

/// What a fragment ID holds.
pub ghost enum IdView {
    /// Integer fragment ID.
    Integer(Integer),
    /// String fragment ID.
    String(Seq<char>),
}

impl View for Id {
    type V = IdView;

    open spec fn view(&self) -> IdView {
        match self {
            Id::Integer(value) => IdView::Integer(*value),
            Id::String(string) => IdView::String(string@),
        }
    }
}

impl Id {
    /// Constructs [`Self`] from [`Integer`].
    pub fn integer(value: Integer) -> (id: Self)
        ensures
            id@ == IdView::Integer(value),
    {
        Self::Integer(value)
    }

    /// Constructs [`Self`] from [`String`].
    pub fn owned(string: String) -> (id: Self)
        ensures
            id@ == IdView::String(string@),
    {
        Self::String(string)
    }

    /// Constructs [`Self`] from [`str`].
    pub fn borrowed(string: &str) -> (id: Self)
        ensures
            id@ == IdView::String(string@),
    {
        Self::String(string.to_owned())
    }

    /// Checks if [`Self`] is [`Integer`].
    pub fn is_integer(&self) -> (result: bool)
        ensures
            result == (self@ is Integer),
    {
        match self {
            Self::Integer(_) => true,
            Self::String(_) => false,
        }
    }

    /// Checks if [`Self`] is [`String`].
    pub fn is_string(&self) -> (result: bool)
        ensures
            result == (self@ is String),
    {
        match self {
            Self::Integer(_) => false,
            Self::String(_) => true,
        }
    }
}

/// The ID that `text` writes: what follows the prefix, where it starts with
/// one, and else the integer that it writes in decimal.
pub open spec fn parsed_id(text: Seq<char>) -> Option<IdView> {
    if text.len() > 0 && text[0] == STRING_PREFIX {
        Some(IdView::String(text.drop_first()))
    } else {
        match parsed_integer(text) {
            Some(value) => Some(IdView::Integer(value)),
            None => None,
        }
    }
}

/// Represents errors that can occur when parsing fragment IDs.
#[derive(Debug)]
pub struct InvalidIdError {
    /// The string that could not be parsed into any valid ID.
    pub string: String,
}

impl InvalidIdError {
    /// Constructs [`Self`].
    pub fn new(string: String) -> (error: Self)
        ensures
            error.string == string,
    {
        Self { string }
    }

    /// What the error says.
    pub open spec fn message_text(&self) -> Seq<char> {
        "failed to parse `"@ + self.string@ + "` into fragment ID"@
    }

    /// Says what went wrong.
    pub fn message(&self) -> (message: String)
        ensures
            message@ == self.message_text(),
    {
        let mut message = "failed to parse `".to_owned();
        message.append(self.string.as_str());
        message.append("` into fragment ID");
        message
    }
}

/// Reads the ID that `chars[from..to]` writes.
fn parse_id(chars: &Vec<char>, from: usize, to: usize) -> (result: Result<Id, InvalidIdError>)
    requires
        from <= to <= chars.len(),
    ensures
        match result {
            Ok(id) => parsed_id(chars@.subrange(from as int, to as int)) == Some(id@),
            Err(error) => {
                &&& parsed_id(chars@.subrange(from as int, to as int)) is None
                &&& error.string@ == chars@.subrange(from as int, to as int)
            },
        },
{
    let ghost text = chars@.subrange(from as int, to as int);
    if from < to && chars[from] == STRING_PREFIX {
        let string = substring(chars, from + 1, to);
        assert(string@ =~= text.drop_first());
        Ok(Id::owned(string))
    } else {
        match parse_integer_in(chars, from, to) {
            Some(value) => Ok(Id::integer(value)),
            None => Err(InvalidIdError::new(substring(chars, from, to))),
        }
    }
}

impl Id {
    /// Parses a fragment ID: a string that starts with [`STRING_PREFIX`] is a
    /// string ID, without the prefix; any other has to be an integer.
    pub fn parse(string: &str) -> (result: Result<Self, InvalidIdError>)
        ensures
            match result {
                Ok(id) => parsed_id(string@) == Some(id@),
                Err(error) => parsed_id(string@) is None && error.string@ == string@,
            },
    {
        let chars = to_chars(string);
        assert(chars@.subrange(0, chars@.len() as int) =~= string@);
        parse_id(&chars, 0, chars.len())
    }
}

impl FromStr for Id {
    type Err = InvalidIdError;

    fn from_str(string: &str) -> (result: Result<Self, Self::Err>)
        ensures
            match result {
                Ok(id) => parsed_id(string@) == Some(id@),
                Err(error) => parsed_id(string@) is None && error.string@ == string@,
            },
    {
        Self::parse(string)
    }
}

/// Represents errors that can occur when there are not enough parts to parse.
#[derive(Debug)]
pub struct UnexpectedEofError;

impl UnexpectedEofError {
    /// Says what went wrong.
    pub fn message(&self) -> (message: String)
        ensures
            message@ == "unexpected EOF"@,
    {
        "unexpected EOF".to_owned()
    }
}

/// Represents sources of errors that can occur while parsing into [`Partial`].
#[derive(Debug)]
pub enum ParseErrorSource {
    /// Parse ID errors.
    InvalidId(InvalidIdError),
    /// Unexpected EOF errors.
    UnexpectedEof(UnexpectedEofError),
}

/// Represents errors that can occur while parsing into [`Partial`].
#[derive(Debug)]
pub struct ParseError {
    /// The source of this error.
    pub source: ParseErrorSource,
    /// The name provided.
    pub name: String,
}

/// Why a name is not the name of a fragment.
pub ghost enum ParseFailure {
    /// The first part is no ID.
    InvalidId,
    /// There is no second part.
    UnexpectedEof,
}

impl ParseError {
    /// What the error says.
    pub open spec fn message_text(&self) -> Seq<char> {
        "failed to parse `"@ + self.name@ + "`"@
    }

    /// Says what went wrong. The source of the error says why.
    pub fn message(&self) -> (message: String)
        ensures
            message@ == self.message_text(),
    {
        let mut message = "failed to parse `".to_owned();
        message.append(self.name.as_str());
        message.append("`");
        message
    }

    /// Why parsing failed.
    pub open spec fn failure(&self) -> ParseFailure {
        match self.source {
            ParseErrorSource::InvalidId(_) => ParseFailure::InvalidId,
            ParseErrorSource::UnexpectedEof(_) => ParseFailure::UnexpectedEof,
        }
    }

    /// Constructs [`Self`].
    pub fn new(source: ParseErrorSource, name: String) -> (error: Self)
        ensures
            error.source == source,
            error.name == name,
    {
        Self { source, name }
    }

    /// Constructs [`Self`] from [`InvalidIdError`].
    pub fn invalid_id(error: InvalidIdError, name: String) -> (result: Self)
        ensures
            result.source == ParseErrorSource::InvalidId(error),
            result.name == name,
    {
        Self::new(ParseErrorSource::InvalidId(error), name)
    }

    /// Constructs [`Self`] from [`UnexpectedEofError`].
    pub fn unexpected_eof(error: UnexpectedEofError, name: String) -> (result: Self)
        ensures
            result.source == ParseErrorSource::UnexpectedEof(error),
            result.name == name,
    {
        Self::new(ParseErrorSource::UnexpectedEof(error), name)
    }

    /// Constructs [`InvalidIdError`] and constructs [`Self`] from it.
    pub fn new_invalid_id(string: String, name: String) -> (result: Self)
        ensures
            result.source == ParseErrorSource::InvalidId(InvalidIdError { string }),
            result.name == name,
    {
        Self::invalid_id(InvalidIdError::new(string), name)
    }

    /// Constructs [`UnexpectedEofError`] and constructs [`Self`] from it.
    pub fn new_unexpected_eof(name: String) -> (result: Self)
        ensures
            result.source == ParseErrorSource::UnexpectedEof(UnexpectedEofError),
            result.name == name,
    {
        Self::unexpected_eof(UnexpectedEofError, name)
    }
}

/// Represents partial fragments.
#[derive(Debug, Clone, PartialEq, Eq, PartialOrd, Ord)]
pub struct Partial {
    /// The ID of the fragment.
    pub id: Id,
    /// The type of the fragment.
    pub kind: String,
}

/// What a partial fragment holds.
pub ghost struct PartialView {
    /// The ID of the fragment.
    pub id: IdView,
    /// The type of the fragment.
    pub kind: Seq<char>,
}

impl View for Partial {
    type V = PartialView;

    open spec fn view(&self) -> PartialView {
        PartialView { id: self.id@, kind: self.kind@ }
    }
}

impl Partial {
    /// Constructs [`Self`].
    pub fn new(id: Id, kind: String) -> (partial: Self)
        ensures
            partial.id == id,
            partial.kind == kind,
    {
        Self { id, kind }
    }

    /// Constructs [`Self`] with the owned type.
    pub fn owned(id: Id, kind: String) -> (partial: Self)
        ensures
            partial.id == id,
            partial.kind == kind,
    {
        Self::new(id, kind)
    }

    /// Constructs [`Self`] with the borrowed type.
    pub fn borrowed(id: Id, kind: &str) -> (partial: Self)
        ensures
            partial.id == id,
            partial.kind@ == kind@,
    {
        Self::new(id, kind.to_owned())
    }
}

/// Where the part of `name` that starts at `from` ends: at the next [`DOT`],
/// or at the end of the name.
pub open spec fn part_end(name: Seq<char>, from: int) -> int
    decreases name.len() - from,
{
    if from < 0 || from >= name.len() {
        name.len() as int
    } else if name[from] == DOT {
        from
    } else {
        part_end(name, from + 1)
    }
}

/// The partial fragment that `name` writes. The name is cut at each [`DOT`],
/// and the first two parts are taken: a name with one part only, or with an
/// empty second part, ends too early, whatever the first part holds. The
/// first part is the ID, the second the type, which is therefore never
/// empty; further parts are not looked at.
pub open spec fn parsed_partial(name: Seq<char>) -> Result<PartialView, ParseFailure> {
    let id_end = part_end(name, 0);
    let kind = name.subrange(id_end + 1, part_end(name, id_end + 1));
    if id_end == name.len() || kind.len() == 0 {
        Err(ParseFailure::UnexpectedEof)
    } else {
        match parsed_id(name.take(id_end)) {
            None => Err(ParseFailure::InvalidId),
            Some(id) => Ok(PartialView { id, kind }),
        }
    }
}

/// The type of a fragment is never empty.
pub proof fn lemma_kind_is_not_empty(name: Seq<char>)
    ensures
        parsed_partial(name) matches Ok(partial) ==> partial.kind.len() > 0,
{
}

/// Whether `name` is the name of a fragment.
pub open spec fn is_valid_name(name: Seq<char>) -> bool {
    parsed_partial(name) is Ok
}

/// Finds where the part of `chars` that starts at `from` ends.
fn find_part_end(chars: &Vec<char>, from: usize) -> (end: usize)
    requires
        from <= chars.len(),
    ensures
        end == part_end(chars@, from as int),
        from <= end <= chars.len(),
{
    let mut end: usize = from;
    while end < chars.len() && chars[end] != DOT
        invariant
            from <= end <= chars.len(),
            part_end(chars@, from as int) == part_end(chars@, end as int),
        decreases chars.len() - end,
    {
        end += 1;
    }
    end
}

impl Partial {
    /// Parses the name of a fragment, `{id}.{type}` with anything after a
    /// second [`DOT`] ignored. A name without a [`DOT`], or with nothing
    /// between the first [`DOT`] and the next, ends too early; the ID is
    /// read only where there is a type.
    pub fn parse(name: &str) -> (result: Result<Self, ParseError>)
        ensures
            match result {
                Ok(partial) => parsed_partial(name@) == Ok::<PartialView, ParseFailure>(partial@)
                    && partial@.kind.len() > 0,
                Err(error) => {
                    &&& parsed_partial(name@) == Err::<PartialView, ParseFailure>(error.failure())
                    &&& error.name@ == name@
                    &&& error.source matches ParseErrorSource::InvalidId(invalid)
                        ==> invalid.string@ == name@.take(part_end(name@, 0))
                },
            },
    {
        let chars = to_chars(name);
        let id_end = find_part_end(&chars, 0);
        assert(chars@.subrange(0, id_end as int) =~= name@.take(id_end as int));
        if id_end == chars.len() {
            return Err(ParseError::new_unexpected_eof(name.to_owned()));
        }
        let type_end = find_part_end(&chars, id_end + 1);
        if type_end == id_end + 1 {
            return Err(ParseError::new_unexpected_eof(name.to_owned()));
        }
        let id = match parse_id(&chars, 0, id_end) {
            Ok(id) => id,
            Err(error) => {
                return Err(ParseError::invalid_id(error, name.to_owned()));
            },
        };
        let kind = substring(&chars, id_end + 1, type_end);
        Ok(Self::owned(id, kind))
    }
}

impl FromStr for Partial {
    type Err = ParseError;

    fn from_str(name: &str) -> (result: Result<Self, Self::Err>)
        ensures
            match result {
                Ok(partial) => parsed_partial(name@) == Ok::<PartialView, ParseFailure>(partial@)
                    && partial@.kind.len() > 0,
                Err(error) => {
                    &&& parsed_partial(name@) == Err::<PartialView, ParseFailure>(error.failure())
                    &&& error.name@ == name@
                    &&& error.source matches ParseErrorSource::InvalidId(invalid)
                        ==> invalid.string@ == name@.take(part_end(name@, 0))
                },
            },
    {
        Self::parse(name)
    }
}

/// Validates that the `string` represents some partial fragment.
///
/// This function parses the string provided, discarding the resulting partial fragment.
pub fn validate_str(string: &str) -> (result: Result<(), ParseError>)
    ensures
        result is Ok <==> is_valid_name(string@),
        result matches Err(error) ==> {
            &&& parsed_partial(string@) == Err::<PartialView, ParseFailure>(error.failure())
            &&& error.name@ == string@
            &&& error.source matches ParseErrorSource::InvalidId(invalid) ==> invalid.string@
                == string@.take(part_end(string@, 0))
        },
{
    match Partial::parse(string) {
        Ok(_) => Ok(()),
        Err(error) => Err(error),
    }
}

/// The same as [`validate_str`].
pub fn validate(string: &str) -> (result: Result<(), ParseError>)
    ensures
        result is Ok <==> is_valid_name(string@),
        result matches Err(error) ==> {
            &&& parsed_partial(string@) == Err::<PartialView, ParseFailure>(error.failure())
            &&& error.name@ == string@
            &&& error.source matches ParseErrorSource::InvalidId(invalid) ==> invalid.string@
                == string@.take(part_end(string@, 0))
        },
{
    validate_str(string)
}

/// Represents errors that can occur when reading files.
#[derive(Debug)]
pub struct ReadError(pub std::io::Error);

/// Represents errors that can occur when encountering invalid UTF-8 fragment names.
#[derive(Debug)]
pub struct InvalidUtf8Error;

/// Represents sources of errors that can occur when loading [`Fragment`] values.
#[derive(Debug)]
pub enum ErrorSource {
    /// Invalid UTF-8 errors.
    InvalidUtf8(InvalidUtf8Error),
    /// Parse errors.
    Parse(ParseError),
    /// Read errors.
    Read(ReadError),
}

/// Represents errors that can occur when loading [`Fragment`] values.
#[derive(Debug)]
pub struct Error {
    /// The source of this error.
    pub source: ErrorSource,
    /// The path provided.
    pub path: PathBuf,
}

impl Error {
    /// Constructs [`Self`].
    pub fn new(source: ErrorSource, path: PathBuf) -> (error: Self)
        ensures
            error.source == source,
            error.path == path,
    {
        Self { source, path }
    }

    /// Constructs [`Self`] from [`InvalidUtf8Error`].
    pub fn invalid_utf8(error: InvalidUtf8Error, path: PathBuf) -> (result: Self)
        ensures
            result.source == ErrorSource::InvalidUtf8(error),
            result.path == path,
    {
        Self::new(ErrorSource::InvalidUtf8(error), path)
    }

    /// Constructs [`Self`] from [`ParseError`].
    pub fn parse(error: ParseError, path: PathBuf) -> (result: Self)
        ensures
            result.source == ErrorSource::Parse(error),
            result.path == path,
    {
        Self::new(ErrorSource::Parse(error), path)
    }

    /// Constructs [`Self`] from [`ReadError`].
    pub fn read(error: ReadError, path: PathBuf) -> (result: Self)
        ensures
            result.source == ErrorSource::Read(error),
            result.path == path,
    {
        Self::new(ErrorSource::Read(error), path)
    }

    /// Constructs [`InvalidUtf8Error`] and constructs [`Self`] from it.
    pub fn new_invalid_utf8(path: PathBuf) -> (result: Self)
        ensures
            result.source == ErrorSource::InvalidUtf8(InvalidUtf8Error),
            result.path == path,
    {
        Self::invalid_utf8(InvalidUtf8Error, path)
    }

    /// Constructs [`ReadError`] and constructs [`Self`] from it.
    pub fn new_read(error: std::io::Error, path: PathBuf) -> (result: Self)
        ensures
            result.source == ErrorSource::Read(ReadError(error)),
            result.path == path,
    {
        Self::read(ReadError(error), path)
    }
}

/// Represents fragments.
#[derive(Debug, Clone, PartialEq, Eq, PartialOrd, Ord)]
pub struct Fragment {
    /// The partial fragment.
    pub partial: Partial,
    /// The fragment content.
    pub content: String,
}

/// What a fragment holds.
pub ghost struct FragmentView {
    /// The partial fragment.
    pub partial: PartialView,
    /// The fragment content.
    pub content: Seq<char>,
}

impl View for Fragment {
    type V = FragmentView;

    open spec fn view(&self) -> FragmentView {
        FragmentView { partial: self.partial@, content: self.content@ }
    }
}

impl Fragment {
    /// Constructs [`Self`].
    pub fn new(partial: Partial, content: String) -> (fragment: Self)
        ensures
            fragment.partial == partial,
            fragment.content == content,
    {
        Self { partial, content }
    }

    /// Constructs [`Self`] with the owned content.
    pub fn owned(partial: Partial, content: String) -> (fragment: Self)
        ensures
            fragment.partial == partial,
            fragment.content == content,
    {
        Self::new(partial, content)
    }

    /// Constructs [`Self`] with the borrowed content.
    pub fn borrowed(partial: Partial, content: &str) -> (fragment: Self)
        ensures
            fragment.partial == partial,
            fragment.content@ == content@,
    {
        Self::new(partial, content.to_owned())
    }

    /// References the `partial` field.
    pub fn partial(&self) -> (partial: &Partial)
        ensures
            partial == self.partial,
    {
        &self.partial
    }

    /// References the `content` field.
    pub fn content(&self) -> (content: &str)
        ensures
            content@ == self.content@,
    {
        self.content.as_str()
    }
}

/// A file found in the fragments directory, as far as it could be read.
#[derive(Debug)]
pub struct Entry {
    /// The path of the file.
    pub path: PathBuf,
    /// The name of the file, unless it is not valid UTF-8.
    pub name: Option<String>,
    /// What the file holds, or why it could not be read.
    pub contents: Result<String, std::io::Error>,
}

/// Why no fragment was loaded.
pub ghost enum LoadFailure {
    /// The name of the file is not valid UTF-8.
    InvalidUtf8,
    /// The name of the file is not the name of a fragment.
    Parse(ParseFailure),
    /// The file could not be read.
    Read,
}

impl Error {
    /// Why loading failed.
    pub open spec fn failure(&self) -> LoadFailure {
        match self.source {
            ErrorSource::InvalidUtf8(_) => LoadFailure::InvalidUtf8,
            ErrorSource::Parse(error) => LoadFailure::Parse(error.failure()),
            ErrorSource::Read(_) => LoadFailure::Read,
        }
    }
}

/// The fragment that a file makes: its name gives ID and type, and what it
/// holds, trimmed, is the content. The name is looked at first.
pub open spec fn loaded(name: Option<Seq<char>>, contents: Option<Seq<char>>) -> Result<
    FragmentView,
    LoadFailure,
> {
    match name {
        None => Err(LoadFailure::InvalidUtf8),
        Some(name) => match parsed_partial(name) {
            Err(failure) => Err(LoadFailure::Parse(failure)),
            Ok(partial) => match contents {
                None => Err(LoadFailure::Read),
                Some(contents) => Ok(FragmentView { partial, content: trimmed(contents) }),
            },
        },
    }
}

impl Entry {
    /// The name of the file as text.
    pub open spec fn name_view(&self) -> Option<Seq<char>> {
        match self.name {
            Some(name) => Some(name@),
            None => None,
        }
    }

    /// What the file holds as text.
    pub open spec fn contents_view(&self) -> Option<Seq<char>> {
        match self.contents {
            Ok(contents) => Some(contents@),
            Err(_) => None,
        }
    }

    /// The fragment that the file makes.
    pub open spec fn loaded(&self) -> Result<FragmentView, LoadFailure> {
        loaded(self.name_view(), self.contents_view())
    }
}

impl Fragment {
    /// Loads a fragment from a file that was found and read.
    pub fn load(entry: Entry) -> (result: Result<Self, Error>)
        ensures
            match result {
                Ok(fragment) => entry.loaded() == Ok::<FragmentView, LoadFailure>(fragment@),
                Err(error) => {
                    &&& entry.loaded() == Err::<FragmentView, LoadFailure>(error.failure())
                    &&& error.path == entry.path
                    &&& error.source matches ErrorSource::Read(read) ==> entry.contents == Err::<
                        String,
                        std::io::Error,
                    >(read.0)
                    &&& error.source matches ErrorSource::Parse(parse) ==> {
                        &&& parse.name@ == entry.name_view()->0
                        &&& parse.source matches ParseErrorSource::InvalidId(invalid)
                            ==> invalid.string@ == parse.name@.take(part_end(parse.name@, 0))
                    }
                },
            },
    {
        let Entry { path, name, contents } = entry;
        let name = match name {
            Some(name) => name,
            None => {
                return Err(Error::new_invalid_utf8(path));
            },
        };
        let partial = match Partial::parse(name.as_str()) {
            Ok(partial) => partial,
            Err(error) => {
                return Err(Error::parse(error, path));
            },
        };
        let contents = match contents {
            Ok(contents) => contents,
            Err(error) => {
                return Err(Error::new_read(error, path));
            },
        };
        let content = trim(contents.as_str()).to_owned();
        Ok(Self::new(partial, content))
    }
}

/// A file found in the fragments directory, before it is read.
pub type Found = (PathBuf, Option<String>);

/// Whether a file that was found is a fragment by its name: the name is
/// valid UTF-8 and the name of a fragment.
pub open spec fn is_fragment_name(name: Option<String>) -> bool {
    name matches Some(name) && is_valid_name(name@)
}

/// The paths of the files that are fragments by their names, in the order
/// of the files.
pub open spec fn fragment_paths(found: Seq<Found>) -> Seq<PathBuf> {
    found.filter(|file: Found| is_fragment_name(file.1)).map_values(|file: Found| file.0)
}

/// Whether the name of a file, if it has one that is valid UTF-8, is the
/// name of a fragment.
pub fn is_valid_file_name(name: &Option<String>) -> (result: bool)
    ensures
        result == is_fragment_name(*name),
{
    match name {
        Some(name) => validate_str(name.as_str()).is_ok(),
        None => false,
    }
}

/// Keeps the paths of the files that are fragments by their names.
pub fn collect_paths(found: Vec<Found>) -> (paths: Vec<PathBuf>)
    ensures
        paths@ == fragment_paths(found@),
{
    let ghost all = found@;
    let ghost keep = |file: Found| is_fragment_name(file.1);
    let ghost path = |file: Found| file.0;
    let mut rest = reversed(found);
    let mut paths: Vec<PathBuf> = Vec::new();
    proof {
        assert(all.take(0) =~= Seq::<Found>::empty());
        assert(all.take(0).filter(keep) =~= Seq::<Found>::empty()) by {
            all.take(0).lemma_filter_len(keep);
        }
        assert(paths@ =~= all.take(0).filter(keep).map_values(path));
    }
    while rest.len() > 0
        invariant
            rest@.len() <= all.len(),
            forall|index: int| 0 <= index < rest@.len() ==> rest@[index] == all[all.len() - 1 - index],
            keep == |file: Found| is_fragment_name(file.1),
            path == |file: Found| file.0,
            paths@ == all.take(all.len() - rest@.len()).filter(keep).map_values(path),
        decreases rest.len(),
    {
        let ghost done = all.len() - rest@.len();
        let file = rest.pop().unwrap();
        proof {
            assert(file == all[done]);
            assert(all.take(done + 1) =~= all.take(done).push(file));
            all.take(done).lemma_filter_push(file, keep);
        }
        if is_valid_file_name(&file.1) {
            proof {
                assert(all.take(done).filter(keep).push(file).map_values(path) =~= all.take(
                    done,
                ).filter(keep).map_values(path).push(file.0));
            }
            paths.push(file.0);
        }
    }
    proof {
        assert(all.take(all.len() as int) =~= all);
    }
    paths
}

/// Collecting paths and loading agree on what counts as a fragment: the
/// path of a file is kept exactly if loading the file can fail at reading
/// only, whatever the file holds.
pub proof fn lemma_paths_agree_with_loading(entry: Entry)
    ensures
        is_fragment_name(entry.name) <==> (entry.loaded() is Ok || entry.loaded() == Err::<
            FragmentView,
            LoadFailure,
        >(LoadFailure::Read)),
{
}

} // verus!
