//! Templates that include templates.
//!
//! A template can include another one by a tag that opens like any other
//! and then holds a `>`. Nothing bounds how deep templates include each
//! other while they are rendered: templates that include each other in a
//! circle are rendered without end. The engine refuses a template that
//! includes itself, but only as long as no block of that template was
//! rendered. This module reads the sources of templates, and tells whether
//! endless inclusion is ruled out:
//!
//! - a template that defines templates of its own includes nothing inside a
//!   block, so that what it defines includes nothing;
//! - a template that may include itself holds no block, so that the engine
//!   refuses it;
//! - a template that is included by another one includes no third one, and
//!   not the other one.
//!
//! A tag may include whatever it names. It names what follows its sign,
//! as it stands there; only a name in round brackets is worked out while
//! rendering, and may then be any name.
//!
//! The sources are read as text, not as templates. What looks like a tag
//! counts as one, also in a comment.

use vstd::prelude::*;

verus! {

/// The runs of characters that tags are read by.
#[derive(Debug, Clone, Copy, PartialEq, Eq)]
pub enum Run {
    /// White space: the space, the tab and the two ends of a line.
    Blanks,
    /// What can stand between the opening of a tag and its sign: white
    /// space, `~` and `#`.
    Marks,
    /// What the plain name of a template is made of: letters and digits of
    /// ASCII, `-`, `_`, `@`, `/`, `.`, and every character that is not ASCII.
    Name,
}

impl Run {
    /// Whether `character` belongs to the run.
    pub open spec fn holds(self, character: char) -> bool {
        let blank = character == ' ' || character == '\t' || character == '\n' || character
            == '\r';
        match self {
            Run::Blanks => blank,
            Run::Marks => blank || character == '~' || character == '#',
            Run::Name => ('a' <= character <= 'z') || ('A' <= character <= 'Z') || ('0'
                <= character <= '9') || character == '-' || character == '_' || character == '@'
                || character == '/' || character == '.' || character >= '\u{80}',
        }
    }

    /// Whether `character` belongs to the run.
    pub fn has(self, character: char) -> (result: bool)
        ensures
            result == self.holds(character),
    {
        let blank = character == ' ' || character == '\t' || character == '\n' || character
            == '\r';
        match self {
            Run::Blanks => blank,
            Run::Marks => blank || character == '~' || character == '#',
            Run::Name => ('a' <= character && character <= 'z') || ('A' <= character && character
                <= 'Z') || ('0' <= character && character <= '9') || character == '-' || character
                == '_' || character == '@' || character == '/' || character == '.' || character
                >= '\u{80}',
        }
    }
}

/// Where the run that starts at `from` ends.
pub open spec fn run_end(source: Seq<char>, from: int, run: Run) -> int
    decreases source.len() - from,
{
    if 0 <= from < source.len() && run.holds(source[from]) {
        run_end(source, from + 1, run)
    } else {
        from
    }
}

/// Whether a tag opens at `at`: two opening braces.
pub open spec fn opens_at(source: Seq<char>, at: int) -> bool {
    0 <= at && at + 1 < source.len() && source[at] == '{' && source[at + 1] == '{'
}

/// Where the sign of the tag that opens at `at` stands: behind its marks.
pub open spec fn sign_at(source: Seq<char>, at: int) -> int {
    run_end(source, at + 2, Run::Marks)
}

/// Whether the tag that opens at `at` has the sign `sign`.
pub open spec fn signed_at(source: Seq<char>, at: int, sign: char) -> bool {
    opens_at(source, at) && sign_at(source, at) < source.len() && source[sign_at(source, at)]
        == sign
}

/// Whether a tag that includes a template opens at `at`.
pub open spec fn includes_at(source: Seq<char>, at: int) -> bool {
    signed_at(source, at, '>')
}

/// Where the name starts that the tag at `at` includes.
pub open spec fn name_start(source: Seq<char>, at: int) -> int {
    run_end(source, sign_at(source, at) + 1, Run::Blanks)
}

/// Where the name ends that the tag at `at` includes, where it is a plain one.
pub open spec fn name_end(source: Seq<char>, at: int) -> int {
    run_end(source, name_start(source, at), Run::Name)
}

/// The plain name that the tag at `at` includes.
pub open spec fn included_at(source: Seq<char>, at: int) -> Seq<char> {
    source.subrange(name_start(source, at), name_end(source, at))
}

/// Whether the tag that opens at `at` may include the template `name`:
/// it includes a template, and names it by the plain name `name`, or names
/// it in round brackets, or by something that starts as `name` does and is
/// no plain name. A tag that ends with the source may include any template.
pub open spec fn may_include_at(source: Seq<char>, at: int, name: Seq<char>) -> bool {
    let start = name_start(source, at);
    let end = name_end(source, at);
    includes_at(source, at) && if start >= source.len() || end >= source.len() {
        true
    } else if start < end {
        included_at(source, at) == name
    } else if source[start] == '(' {
        true
    } else {
        name.len() > 0 && name[0] == source[start]
    }
}

/// Whether a tag with the sign `sign` opens somewhere in `source`.
pub open spec fn has_signed(source: Seq<char>, sign: char) -> bool {
    exists|at: int| signed_at(source, at, sign)
}

/// Whether `source` holds a tag that can define a template.
pub open spec fn defines(source: Seq<char>) -> bool {
    has_signed(source, '*')
}

/// Whether `source` holds a tag that closes a block.
pub open spec fn closes(source: Seq<char>) -> bool {
    has_signed(source, '/')
}

/// Whether `source` holds a tag that includes a template and may stand
/// inside a block: a block is closed behind it.
pub open spec fn includes_in_block(source: Seq<char>) -> bool {
    exists|at: int, close: int|
        #![trigger signed_at(source, at, '>'), signed_at(source, close, '/')]
        at < close && signed_at(source, at, '>') && signed_at(source, close, '/')
}

/// Whether `source` may include the template `name`.
pub open spec fn may_include(source: Seq<char>, name: Seq<char>) -> bool {
    exists|at: int| may_include_at(source, at, name)
}

/// Whether rendering the template `name` of `templates` cannot go on
/// without end, as far as the template itself goes: what it defines
/// includes nothing, and the engine refuses it where it includes itself.
pub open spec fn is_bounded(templates: Map<Seq<char>, Seq<char>>, name: Seq<char>) -> bool {
    &&& defines(templates[name]) ==> !includes_in_block(templates[name])
    &&& may_include(templates[name], name) ==> !closes(templates[name])
}

/// Whether no template of `templates` can be rendered without end: each
/// of them is bounded, and a template that another one may include may
/// include none but itself.
pub open spec fn cannot_recurse(templates: Map<Seq<char>, Seq<char>>) -> bool {
    &&& forall|name: Seq<char>| #[trigger]
        templates.contains_key(name) ==> is_bounded(templates, name)
    &&& forall|first: Seq<char>, second: Seq<char>, third: Seq<char>|
        #![trigger may_include(templates[first], second), may_include(templates[second], third)]
        templates.contains_key(first) && templates.contains_key(second) && templates.contains_key(
            third,
        ) && first != second && second != third && may_include(templates[first], second)
            ==> !may_include(templates[second], third)
}

/// Finds where the run that starts at `from` ends.
fn skip(chars: &Vec<char>, from: usize, run: Run) -> (end: usize)
    requires
        from <= chars.len(),
    ensures
        end == run_end(chars@, from as int, run),
        from <= end <= chars.len(),
{
    let mut end: usize = from;
    while end < chars.len() && run.has(chars[end])
        invariant
            from <= end <= chars.len(),
            run_end(chars@, from as int, run) == run_end(chars@, end as int, run),
        decreases chars.len() - end,
    {
        end += 1;
    }
    end
}

/// Whether the tag that opens at `at`, if one does, has the sign `sign`.
fn is_signed(chars: &Vec<char>, at: usize, sign: char) -> (result: bool)
    requires
        at < chars.len(),
    ensures
        result == signed_at(chars@, at as int, sign),
{
    if at + 1 < chars.len() && chars[at] == '{' && chars[at + 1] == '{' {
        let found = skip(chars, at + 2, Run::Marks);
        found < chars.len() && chars[found] == sign
    } else {
        false
    }
}

/// Finds the first tag with the sign `sign`.
fn first_signed(chars: &Vec<char>, sign: char) -> (result: Option<usize>)
    ensures
        match result {
            Some(at) => signed_at(chars@, at as int, sign) && forall|earlier: int|
                earlier < at ==> !signed_at(chars@, earlier, sign),
            None => !has_signed(chars@, sign),
        },
{
    let mut at: usize = 0;
    while at < chars.len()
        invariant
            at <= chars.len(),
            forall|earlier: int| earlier < at ==> !signed_at(chars@, earlier, sign),
        decreases chars.len() - at,
    {
        if is_signed(chars, at, sign) {
            return Some(at);
        }
        at += 1;
    }
    assert forall|any: int| !signed_at(chars@, any, sign) by {
        if any >= chars.len() {
            assert(!opens_at(chars@, any));
        }
    }
    None
}

/// Finds the last tag with the sign `sign`.
fn last_signed(chars: &Vec<char>, sign: char) -> (result: Option<usize>)
    ensures
        match result {
            Some(at) => signed_at(chars@, at as int, sign) && forall|later: int|
                later > at ==> !signed_at(chars@, later, sign),
            None => !has_signed(chars@, sign),
        },
{
    let mut at: usize = chars.len();
    while at > 0
        invariant
            at <= chars.len(),
            forall|later: int| later >= at ==> !signed_at(chars@, later, sign),
        decreases at,
    {
        at -= 1;
        if is_signed(chars, at, sign) {
            return Some(at);
        }
    }
    None
}

/// What is read off a source.
pub struct Reading {
    /// Whether the source holds a tag that can define a template.
    pub defines: bool,
    /// Whether the source holds a tag that closes a block.
    pub closes: bool,
    /// Whether the source holds a tag that includes a template and may
    /// stand inside a block.
    pub includes_in_block: bool,
}

impl Reading {
    /// Whether this is what is read off `source`.
    pub open spec fn is_of(&self, source: Seq<char>) -> bool {
        &&& self.defines == defines(source)
        &&& self.closes == closes(source)
        &&& self.includes_in_block == includes_in_block(source)
    }
}

/// Reads a source.
pub fn read(chars: &Vec<char>) -> (reading: Reading)
    ensures
        reading.is_of(chars@),
{
    let defines = first_signed(chars, '*').is_some();
    let first = first_signed(chars, '>');
    let last = last_signed(chars, '/');
    let includes_in_block = match (first, last) {
        (Some(first), Some(last)) => {
            let inside = first < last;
            proof {
                if inside {
                    assert(signed_at(chars@, first as int, '>') && signed_at(
                        chars@,
                        last as int,
                        '/',
                    ));
                }
            }
            inside
        },
        _ => false,
    };
    Reading { defines, closes: last.is_some(), includes_in_block }
}

/// Whether `chars[from..to]` is `name`.
fn is_name(chars: &Vec<char>, from: usize, to: usize, name: &Vec<char>) -> (result: bool)
    requires
        from <= to <= chars.len(),
    ensures
        result == (chars@.subrange(from as int, to as int) == name@),
{
    let ghost part = chars@.subrange(from as int, to as int);
    if to - from != name.len() {
        assert(part.len() != name@.len());
        return false;
    }
    let mut index: usize = 0;
    while index < name.len()
        invariant
            from <= to <= chars.len(),
            to - from == name.len(),
            index <= name.len(),
            part == chars@.subrange(from as int, to as int),
            forall|earlier: int| 0 <= earlier < index ==> part[earlier] == name@[earlier],
        decreases name.len() - index,
    {
        if chars[from + index] != name[index] {
            assert(part[index as int] != name@[index as int]);
            return false;
        }
        index += 1;
    }
    assert(part =~= name@);
    true
}

/// Whether the tag that opens at `at` may include the template `name`.
fn can_include_at(chars: &Vec<char>, at: usize, name: &Vec<char>) -> (result: bool)
    requires
        at < chars.len(),
    ensures
        result == may_include_at(chars@, at as int, name@),
{
    if !is_signed(chars, at, '>') {
        return false;
    }
    let sign = skip(chars, at + 2, Run::Marks);
    let start = skip(chars, sign + 1, Run::Blanks);
    let end = skip(chars, start, Run::Name);
    if start >= chars.len() || end >= chars.len() {
        true
    } else if start < end {
        is_name(chars, start, end, name)
    } else if chars[start] == '(' {
        true
    } else {
        name.len() > 0 && name[0] == chars[start]
    }
}

/// Whether the template that `chars` write may include the template `name`.
pub fn can_include(chars: &Vec<char>, name: &Vec<char>) -> (result: bool)
    ensures
        result == may_include(chars@, name@),
{
    let mut at: usize = 0;
    while at < chars.len()
        invariant
            at <= chars.len(),
            forall|earlier: int| earlier < at ==> !may_include_at(chars@, earlier, name@),
        decreases chars.len() - at,
    {
        if can_include_at(chars, at, name) {
            return true;
        }
        at += 1;
    }
    assert forall|any: int| !may_include_at(chars@, any, name@) by {
        if any >= chars.len() {
            assert(!opens_at(chars@, any));
        }
    }
    false
}

} // verus!
