//! The `NAME=PATH` pairs of `--input` and `--output`.

use vstd::prelude::*;
use vstd::string::*;

use crate::text::{chars_of, find_from, has_part, quote};
#[allow(unused_imports)]
use crate::text::{
    bounded, find, law_parts_lie_between, lemma_find, lemma_find_is, lemma_split_concat, quoted,
    split,
};

verus! {

/// The mount prefix of the run-scoped store: the prompt's
/// `store.read("paper.md")` resolves to `<mount>/paper.md`.
pub const STORE_MOUNT: &'static str = "/_promptforge/store";

/// One `NAME=PATH` pair from `--input` or `--output`: a name inside the store,
/// which the prompt addresses, and a host path, which is read or written.
#[derive(Debug, Clone, PartialEq, Eq)]
pub struct FileMapping {
    /// The store path as the prompt names it, for example `paper.md`.
    pub name: String,
    /// The host file that the store entry is read from or written to.
    pub path: String,
}

/// A pair as mathematics sees it.
pub struct MappingView {
    pub name: Seq<char>,
    pub path: Seq<char>,
}

impl View for FileMapping {
    type V = MappingView;

    open spec fn view(&self) -> MappingView {
        MappingView { name: self.name@, path: self.path@ }
    }
}

/// The views of a list of pairs.
pub open spec fn mappings(list: Seq<FileMapping>) -> Seq<MappingView> {
    Seq::new(list.len(), |i: int| list[i]@)
}

/// What is wrong with a text that is no pair.
#[derive(Debug, Clone, Copy, PartialEq, Eq, Structural)]
pub enum MappingFault {
    /// There is no `=`.
    NoSeparator,
    /// Nothing stands before the first `=`.
    EmptyName,
    /// The name is absolute, has a backslash or a `..` segment.
    BadName,
    /// Nothing stands behind the first `=`.
    EmptyPath,
}

/// Whether `name` stays inside the store: it is relative, has no backslash and
/// none of its segments is `..`.
pub open spec fn is_store_name(name: Seq<char>) -> bool {
    &&& !(name.len() > 0 && name[0] == '/')
    &&& !name.contains('\\')
    &&& !split(name, '/').contains(seq!['.', '.'])
}

/// What `text` says as a pair. The first `=` splits it.
pub open spec fn parsed(text: Seq<char>) -> Result<MappingView, MappingFault> {
    let at = find(text, '=');
    let name = text.take(at);
    let path = text.skip(at + 1);
    if at == text.len() {
        Err(MappingFault::NoSeparator)
    } else if name.len() == 0 {
        Err(MappingFault::EmptyName)
    } else if !is_store_name(name) {
        Err(MappingFault::BadName)
    } else if path.len() == 0 {
        Err(MappingFault::EmptyPath)
    } else {
        Ok(MappingView { name, path })
    }
}

/// The part of `text` that the message about `fault` shows.
pub open spec fn fault_subject(text: Seq<char>, fault: MappingFault) -> Seq<char> {
    match fault {
        MappingFault::BadName => text.take(find(text, '=')),
        _ => text,
    }
}

/// The message about `fault`, with its subject already in quotes.
pub open spec fn fault_message(fault: MappingFault, subject: Seq<char>) -> Seq<char> {
    match fault {
        MappingFault::NoSeparator => "expected NAME=PATH, got "@ + subject,
        MappingFault::EmptyName => "the store name is empty in "@ + subject,
        MappingFault::BadName => "the store name "@ + subject
            + " must be a relative path without `..` or backslashes"@,
        MappingFault::EmptyPath => "the host path is empty in "@ + subject,
    }
}

/// The location of the store file `name` in the run's file system.
pub open spec fn store_location(name: Seq<char>) -> Seq<char> {
    STORE_MOUNT@ + "/"@ + name
}

impl MappingFault {
    /// The message about this fault, with its subject already in quotes.
    pub fn message(&self, subject: &str) -> (text: String)
        ensures
            text@ == fault_message(*self, subject@),
    {
        match self {
            MappingFault::NoSeparator => "expected NAME=PATH, got ".to_owned().concat(subject),
            MappingFault::EmptyName => "the store name is empty in ".to_owned().concat(subject),
            MappingFault::BadName => "the store name ".to_owned().concat(subject).concat(
                " must be a relative path without `..` or backslashes",
            ),
            MappingFault::EmptyPath => "the host path is empty in ".to_owned().concat(subject),
        }
    }
}

/// Whether `name` stays inside the store.
fn check_store_name(name: &Vec<char>) -> (ok: bool)
    ensures
        ok == is_store_name(name@),
{
    let mut parent: Vec<char> = Vec::new();
    parent.push('.');
    parent.push('.');
    proof {
        assert(parent@ =~= seq!['.', '.']);
    }
    let backslash: usize = find_from(name, '\\', 0);
    proof {
        assert(name@.skip(0) =~= name@);
        lemma_find(name@, '\\');
        if backslash < name@.len() {
            assert(name@[backslash as int] == '\\');
        }
    }
    if name.len() > 0 && name[0] == '/' {
        return false;
    }
    backslash == name.len() && !has_part(name, '/', &parent)
}

impl FileMapping {
    /// Reads `text` as a pair, or says what is wrong with it.
    pub fn check(text: &str) -> (res: Result<FileMapping, MappingFault>)
        ensures
            match res {
                Ok(mapping) => parsed(text@) == Ok::<MappingView, MappingFault>(mapping@),
                Err(fault) => parsed(text@) == Err::<MappingView, MappingFault>(fault),
            },
    {
        let chars = chars_of(text);
        let at: usize = find_from(&chars, '=', 0);
        proof {
            assert(chars@.skip(0) =~= text@);
        }
        if at == chars.len() {
            return Err(MappingFault::NoSeparator);
        }
        if at == 0 {
            return Err(MappingFault::EmptyName);
        }
        let name = text.substring_char(0, at);
        let path = text.substring_char(at + 1, chars.len());
        proof {
            assert(name@ =~= text@.take(at as int));
            assert(path@ =~= text@.skip(at + 1));
        }
        if !check_store_name(&chars_of(name)) {
            return Err(MappingFault::BadName);
        }
        if at + 1 == chars.len() {
            return Err(MappingFault::EmptyPath);
        }
        Ok(FileMapping { name: name.to_owned(), path: path.to_owned() })
    }

    /// Parses `NAME=PATH`. The name is a relative store path: non-empty, no
    /// leading `/`, no `..` segments, no backslashes, so that a bad pair fails
    /// here and not inside the run. The error is the message for the operator.
    pub fn parse(text: &str) -> (res: Result<FileMapping, String>)
        ensures
            match parsed(text@) {
                Ok(mapping) => res is Ok && res->Ok_0@ == mapping,
                Err(fault) => res is Err && res->Err_0@ == fault_message(
                    fault,
                    quoted(fault_subject(text@, fault)),
                ),
            },
    {
        match FileMapping::check(text) {
            Ok(mapping) => Ok(mapping),
            Err(fault) => {
                let subject = match fault {
                    MappingFault::BadName => {
                        let chars = chars_of(text);
                        let at: usize = find_from(&chars, '=', 0);
                        proof {
                            assert(chars@.skip(0) =~= text@);
                        }
                        let name = text.substring_char(0, at);
                        proof {
                            assert(name@ =~= text@.take(at as int));
                        }
                        quote(name)
                    },
                    _ => quote(text),
                };
                Err(fault.message(subject.as_str()))
            },
        }
    }

    /// The name's absolute location in the run's file system.
    pub fn store_path(&self) -> (path: String)
        ensures
            path@ == store_location(self@.name),
    {
        STORE_MOUNT.to_owned().concat("/").concat(self.name.as_str())
    }
}

/// The first `=` splits: a name without one, then `=`, then any host path, even
/// one with more of them, is read back as that name and that path.
pub proof fn law_pair_reads_back(name: Seq<char>, path: Seq<char>)
    requires
        name.len() > 0,
        !name.contains('='),
        is_store_name(name),
        path.len() > 0,
    ensures
        parsed(name.push('=') + path) == Ok::<MappingView, MappingFault>(
            MappingView { name, path },
        ),
{
    let text = name.push('=') + path;
    lemma_find_is(text, '=', name.len() as int);
    assert(text.take(name.len() as int) =~= name);
    assert(text.skip(name.len() as int + 1) =~= path);
}

/// What is accepted is a non-empty store name without `=`, then `=`, then a
/// non-empty path, and nothing is lost of it.
pub proof fn law_accepted_pair(text: Seq<char>)
    requires
        parsed(text) is Ok,
    ensures
        ({
            let mapping = parsed(text)->Ok_0;
            &&& text == mapping.name.push('=') + mapping.path
            &&& mapping.name.len() > 0
            &&& !mapping.name.contains('=')
            &&& is_store_name(mapping.name)
            &&& mapping.path.len() > 0
        }),
{
    lemma_find(text, '=');
    let mapping = parsed(text)->Ok_0;
    assert(text =~= mapping.name.push('=') + mapping.path);
}

/// The location of an accepted name is below the mount and stays there: the
/// mount's segments come first, and no segment leads back up.
pub proof fn law_location_stays_below_the_mount(name: Seq<char>)
    requires
        is_store_name(name),
    ensures
        (STORE_MOUNT@ + "/"@).is_prefix_of(store_location(name)),
        split(store_location(name), '/') == split(STORE_MOUNT@, '/') + split(name, '/'),
        !split(store_location(name), '/').contains(seq!['.', '.']),
        !store_location(name).contains('\\'),
{
    let parent = seq!['.', '.'];
    let mount = STORE_MOUNT@;
    let location = store_location(name);
    reveal_strlit("/");
    reveal_strlit("/_promptforge/store");
    assert(location =~= mount.push('/') + name);
    lemma_split_concat(mount, '/', name);
    lemma_mount_segments();
    let all = split(location, '/');
    if all.contains(parent) {
        let i = choose|i: int| 0 <= i < all.len() && all[i] == parent;
        let n = split(mount, '/').len();
        if i >= n {
            assert(split(name, '/')[i - n] == parent);
        }
    }
    if location.contains('\\') {
        let i = choose|i: int| 0 <= i < location.len() && location[i] == '\\';
        if i > mount.len() {
            assert(name[i - mount.len() - 1] == '\\');
        }
    }
}

/// The segments of the mount, none of which is `..`.
proof fn lemma_mount_segments()
    ensures
        split(STORE_MOUNT@, '/').len() == 3,
        forall|i: int| 0 <= i < 3 ==> split(STORE_MOUNT@, '/')[i] != seq!['.', '.'],
{
    let mount = STORE_MOUNT@;
    reveal_strlit("/_promptforge/store");
    lemma_find_is(mount, '/', 0);
    let rest = mount.skip(1);
    lemma_find_is(rest, '/', 12);
    let last = rest.skip(13);
    lemma_find_is(last, '/', 5);
    assert(split(last, '/') =~= seq![last]);
    assert(split(rest, '/') =~= seq![rest.take(12), last]);
    let segments = seq![mount.take(0), rest.take(12), last];
    assert(split(mount, '/') =~= segments);
    assert forall|i: int| 0 <= i < 3 implies segments[i] != seq!['.', '.'] by {
        assert(segments[i].len() != 2);
        assert(seq!['.', '.'].len() == 2);
    }
}

/// Different names have different locations.
pub proof fn law_locations_are_distinct(a: Seq<char>, b: Seq<char>)
    requires
        store_location(a) == store_location(b),
    ensures
        a == b,
{
    let n = (STORE_MOUNT@ + "/"@).len() as int;
    assert(store_location(a).skip(n) =~= a);
    assert(store_location(b).skip(n) =~= b);
}

/// Whether `..` is a segment of `name` at this place: nothing but a `/` or an end
/// of the name stands on either side of it.
pub open spec fn parent_at(name: Seq<char>, i: int) -> bool {
    &&& 0 <= i <= name.len() - 2
    &&& name[i] == '.' && name[i + 1] == '.'
    &&& i == 0 || name[i - 1] == '/'
    &&& i + 2 == name.len() || name[i + 2] == '/'
}

/// A name is refused for a `/` in front, a backslash or a `..` segment, and for
/// nothing else.
proof fn lemma_store_name(name: Seq<char>)
    ensures
        is_store_name(name) <==> {
            &&& name.len() > 0 ==> name[0] != '/'
            &&& forall|i: int| 0 <= i < name.len() ==> name[i] != '\\'
            &&& forall|i: int| !#[trigger] parent_at(name, i)
        },
{
    let parent = seq!['.', '.'];
    law_parts_lie_between(name, '/', parent);
    if split(name, '/').contains(parent) {
        let (from, to) = choose|from: int, to: int| #[trigger]
            bounded(name, '/', from, to) && name.subrange(from, to) == parent;
        assert(name.subrange(from, to).len() == 2);
        assert(name.subrange(from, to)[0] == '.' && name.subrange(from, to)[1] == '.');
        assert(parent_at(name, from));
    }
    if exists|i: int| #[trigger] parent_at(name, i) {
        let i = choose|i: int| #[trigger] parent_at(name, i);
        assert(name.subrange(i, i + 2) =~= parent);
        assert(bounded(name, '/', i, i + 2));
    }
}

/// What a pair is refused for, in the order in which it is looked at, and that any
/// other is accepted as it stands: the name is empty; or it has a `/` in front, a
/// backslash or a `..` segment; or the path is empty.
pub proof fn law_pair_is_judged_by_its_characters(name: Seq<char>, path: Seq<char>)
    requires
        !name.contains('='),
    ensures
        ({
            let verdict = parsed(name.push('=') + path);
            let inside = {
                &&& name.len() > 0 ==> name[0] != '/'
                &&& forall|i: int| 0 <= i < name.len() ==> name[i] != '\\'
                &&& forall|i: int| !#[trigger] parent_at(name, i)
            };
            &&& name.len() == 0 ==> verdict == Err::<MappingView, _>(MappingFault::EmptyName)
            &&& name.len() > 0 && !inside ==> verdict == Err::<MappingView, _>(
                MappingFault::BadName,
            )
            &&& name.len() > 0 && inside && path.len() == 0 ==> verdict == Err::<MappingView, _>(
                MappingFault::EmptyPath,
            )
            &&& name.len() > 0 && inside && path.len() > 0 ==> verdict == Ok::<
                _,
                MappingFault,
            >(MappingView { name, path })
        }),
{
    let text = name.push('=') + path;
    lemma_find_is(text, '=', name.len() as int);
    assert(text.take(name.len() as int) =~= name);
    assert(text.skip(name.len() as int + 1) =~= path);
    lemma_store_name(name);
}

/// A text without `=` is no pair.
pub proof fn law_pair_needs_a_separator(text: Seq<char>)
    ensures
        !text.contains('=') <==> parsed(text) == Err::<MappingView, _>(MappingFault::NoSeparator),
{
    lemma_find(text, '=');
    if text.contains('=') {
        let i = choose|i: int| 0 <= i < text.len() && text[i] == '=';
        assert(find(text, '=') <= i);
    }
}

/// Each refusal says what is wrong and shows it: the name where that is bad, and
/// else the whole text.
pub proof fn law_refusals_are_told(name: Seq<char>, path: Seq<char>, shown: Seq<char>)
    requires
        !name.contains('='),
    ensures
        fault_message(MappingFault::NoSeparator, shown) == "expected NAME=PATH, got "@ + shown,
        fault_message(MappingFault::EmptyName, shown) == "the store name is empty in "@ + shown,
        fault_message(MappingFault::BadName, shown) == "the store name "@ + shown
            + " must be a relative path without `..` or backslashes"@,
        fault_message(MappingFault::EmptyPath, shown) == "the host path is empty in "@ + shown,
        ({
            let text = name.push('=') + path;
            let told = |subject: Seq<char>, fault: MappingFault|
                fault_message(fault, quoted(fault_subject(subject, fault)));
            &&& told(name, MappingFault::NoSeparator) == "expected NAME=PATH, got "@ + quoted(name)
            &&& told(text, MappingFault::EmptyName) == "the store name is empty in "@ + quoted(text)
            &&& told(text, MappingFault::BadName) == "the store name "@ + quoted(name)
                + " must be a relative path without `..` or backslashes"@
            &&& told(text, MappingFault::EmptyPath) == "the host path is empty in "@ + quoted(text)
        }),
{
    let text = name.push('=') + path;
    lemma_find_is(text, '=', name.len() as int);
    assert(text.take(name.len() as int) =~= name);
}

/// A store file lies below the mount under its whole name.
pub proof fn law_location(name: Seq<char>)
    ensures
        store_location(name) == "/_promptforge/store/"@ + name,
{
    reveal_strlit("/");
    reveal_strlit("/_promptforge/store");
    reveal_strlit("/_promptforge/store/");
    assert("/_promptforge/store"@ + "/"@ =~= "/_promptforge/store/"@);
    assert(store_location(name) =~= "/_promptforge/store/"@ + name);
}

/// A pair is seen whole.
pub proof fn law_pair_is_seen_whole(mapping: FileMapping)
    ensures
        mapping@.name == mapping.name@,
        mapping@.path == mapping.path@,
{
}

} // verus!
