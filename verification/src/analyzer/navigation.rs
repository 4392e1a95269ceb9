//! Finding one's way in an element tree: the element that a path leads to,
//! the elements that a search shows, and the paths of all elements.

use crate::analyzer::detector::{lowercase_of, to_lowercase};
use crate::analyzer::{element_views, ElementInfo, ElementView, PropertyView};
use vstd::prelude::*;
use vstd::string::StringExecFns;
use vstd::string::StringSliceAdditionalSpecFns;
use vstd::utf8::encode_utf8;

verus! {

/// The byte of the slash that separates the parts of a path.
pub const SLASH: u8 = 0x2f;

/// A path read up to some byte: the parts that are complete, and the bytes
/// of the part that is being read.
pub struct PathScan {
    pub parts: Seq<Seq<u8>>,
    pub current: Seq<u8>,
}

impl PathScan {
    /// The parts with the part being read closed: it is added unless it is
    /// empty.
    pub open spec fn closed(self) -> Seq<Seq<u8>> {
        if self.current.len() == 0 {
            self.parts
        } else {
            self.parts.push(self.current)
        }
    }
}

/// The path read up to its first `count` bytes: a slash closes the part
/// being read, any other byte belongs to it.
pub open spec fn scanned(path: Seq<u8>, count: nat) -> PathScan
    decreases count,
{
    if count == 0 || count > path.len() {
        PathScan { parts: Seq::empty(), current: Seq::empty() }
    } else {
        let before = scanned(path, (count - 1) as nat);
        if path[count - 1] == SLASH {
            PathScan { parts: before.closed(), current: Seq::empty() }
        } else {
            PathScan { parts: before.parts, current: before.current.push(path[count - 1]) }
        }
    }
}

/// The parts of a path: what stands between its slashes, empty parts left
/// out.
pub open spec fn path_parts(path: Seq<u8>) -> Seq<Seq<u8>> {
    scanned(path, path.len()).closed()
}

/// The element that a path leads to from `e`: `e` itself where its name is
/// the last part, else what the rest of the path leads to from the first
/// child that it leads anywhere from.  `depth` is the index of the part that
/// the name of `e` has to be.
pub open spec fn found_from(e: ElementView, parts: Seq<Seq<u8>>, depth: nat) -> Option<ElementView>
    decreases e, 0nat,
{
    if depth >= parts.len() || encode_utf8(e.name) != parts[depth as int] {
        None
    } else if depth == parts.len() - 1 {
        Some(e)
    } else {
        found_among(e.children, 0, parts, depth + 1)
    }
}

/// What the path leads to from the first element of `items`, at or after
/// index `from`, that it leads anywhere from.
pub open spec fn found_among(items: Seq<ElementView>, from: nat, parts: Seq<Seq<u8>>, depth: nat) -> Option<
    ElementView,
>
    decreases items, items.len() - from,
{
    if from >= items.len() {
        None
    } else {
        match found_from(items[from as int], parts, depth) {
            Some(e) => Some(e),
            None => found_among(items, from + 1, parts, depth),
        }
    }
}

/// The views of a list of byte strings.
pub open spec fn byte_lists(items: Seq<Vec<u8>>) -> Seq<Seq<u8>> {
    Seq::new(items.len(), |i: int| items[i]@)
}

/// The parts of a path.
pub fn split_path(path: &str) -> (parts: Vec<Vec<u8>>)
    ensures
        byte_lists(parts@) == path_parts(encode_utf8(path@)),
{
    let bytes = path.as_bytes();
    let mut parts: Vec<Vec<u8>> = Vec::new();
    let mut current: Vec<u8> = Vec::new();
    let mut i: usize = 0;
    assert(byte_lists(parts@) =~= Seq::<Seq<u8>>::empty());
    while i < bytes.len()
        invariant
            i <= bytes.len(),
            bytes@ == encode_utf8(path@),
            byte_lists(parts@) == scanned(bytes@, i as nat).parts,
            current@ == scanned(bytes@, i as nat).current,
        decreases bytes.len() - i,
    {
        let ghost before = byte_lists(parts@);
        if bytes[i] == SLASH {
            if current.len() > 0 {
                parts.push(current);
                proof {
                    assert(byte_lists(parts@) =~= before.push(scanned(bytes@, i as nat).current));
                }
                current = Vec::new();
            }
        } else {
            current.push(bytes[i]);
        }
        i = i + 1;
    }
    let ghost before = byte_lists(parts@);
    if current.len() > 0 {
        parts.push(current);
        proof {
            assert(byte_lists(parts@) =~= before.push(scanned(bytes@, i as nat).current));
        }
    }
    parts
}

/// Whether `name` is written with the bytes `part`.
fn is_named(name: &String, part: &Vec<u8>) -> (r: bool)
    ensures
        r == (encode_utf8(name@) == part@),
{
    let bytes = name.as_str().as_bytes();
    if bytes.len() != part.len() {
        return false;
    }
    let mut i: usize = 0;
    while i < bytes.len()
        invariant
            i <= bytes.len(),
            bytes@ == encode_utf8(name@),
            bytes@.len() == part@.len(),
            forall|j: int| 0 <= j < i ==> bytes@[j] == part@[j],
        decreases bytes.len() - i,
    {
        if bytes[i] != part[i] {
            return false;
        }
        i = i + 1;
    }
    proof {
        assert(bytes@ =~= part@);
    }
    true
}

/// The element that the path with the parts `parts` leads to from
/// `element`, whose name has to be the part with index `depth`.
fn find_from<'a>(element: &'a ElementInfo, parts: &Vec<Vec<u8>>, depth: usize) -> (r: Option<&'a ElementInfo>)
    requires
        depth < usize::MAX,
    ensures
        match r {
            Some(e) => found_from(element@, byte_lists(parts@), depth as nat) == Some(e@),
            None => found_from(element@, byte_lists(parts@), depth as nat) is None,
        },
    decreases element,
{
    if depth >= parts.len() {
        return None;
    }
    proof {
        assert(byte_lists(parts@)[depth as int] == parts@[depth as int]@);
    }
    if !is_named(&element.name, &parts[depth]) {
        return None;
    }
    if depth == parts.len() - 1 {
        return Some(element);
    }
    let mut i: usize = 0;
    while i < element.children.len()
        invariant
            i <= element.children.len(),
            depth + 1 < parts.len(),
            found_from(element@, byte_lists(parts@), depth as nat) == found_among(
                element@.children,
                0,
                byte_lists(parts@),
                (depth + 1) as nat,
            ),
            found_among(element@.children, 0, byte_lists(parts@), (depth + 1) as nat) == found_among(
                element@.children,
                i as nat,
                byte_lists(parts@),
                (depth + 1) as nat,
            ),
        decreases element.children.len() - i,
    {
        proof {
            assert(element@.children[i as int] == element.children@[i as int]@);
        }
        match find_from(&element.children[i], parts, depth + 1) {
            Some(found) => {
                return Some(found);
            },
            None => {},
        }
        i = i + 1;
    }
    None
}

/// The element that `path` leads to in `structure`: the names of the
/// elements on the way to it are the parts of the path, and at each level the
/// first element that leads anywhere is taken.
pub fn find_element<'a>(structure: &'a [ElementInfo], path: &str) -> (r: Option<&'a ElementInfo>)
    ensures
        match r {
            Some(e) => found_among(element_views(structure@), 0, path_parts(encode_utf8(path@)), 0) == Some(e@),
            None => found_among(element_views(structure@), 0, path_parts(encode_utf8(path@)), 0) is None,
        },
{
    let parts = split_path(path);
    let mut i: usize = 0;
    while i < structure.len()
        invariant
            i <= structure.len(),
            byte_lists(parts@) == path_parts(encode_utf8(path@)),
            found_among(element_views(structure@), 0, byte_lists(parts@), 0) == found_among(
                element_views(structure@),
                i as nat,
                byte_lists(parts@),
                0,
            ),
        decreases structure.len() - i,
    {
        proof {
            assert(element_views(structure@)[i as int] == structure@[i as int]@);
        }
        match find_from(&structure[i], &parts, 0) {
            Some(found) => {
                return Some(found);
            },
            None => {},
        }
        i = i + 1;
    }
    None
}

/// Whether `needle` stands somewhere in `hay`.
pub open spec fn contains_text(hay: Seq<char>, needle: Seq<char>) -> bool {
    exists|i: int| 0 <= i <= hay.len() - needle.len() && #[trigger] hay.subrange(i, i + needle.len()) == needle
}

/// `str::contains` with a text as the pattern.  Claims that it tells whether
/// the pattern stands somewhere in the text.
#[verifier::external_body]
fn str_contains(hay: &str, needle: &str) -> (r: bool)
    ensures
        r == contains_text(hay@, needle@),
{
    hay.contains(needle)
}

/// Whether `text`, in lower case, holds `search`.
pub open spec fn mentions(text: Seq<char>, search: Seq<char>) -> bool {
    contains_text(lowercase_of(text), search)
}

/// Whether the name, the value or the readable value of a property mentions
/// `search`.
pub open spec fn property_mentions(p: PropertyView, search: Seq<char>) -> bool {
    mentions(p.name, search) || mentions(p.value, search) || mentions(p.readable_value, search)
}

/// Whether a search for the text `search`, given in lower case, shows the
/// element: its name or one of its properties mentions the text, or the search
/// shows one of its children.
pub open spec fn found_by(e: ElementView, search: Seq<char>) -> bool
    decreases e,
{
    ||| mentions(e.name, search)
    ||| exists|i: int| 0 <= i < e.properties.len() && property_mentions(#[trigger] e.properties[i], search)
    ||| exists|i: int| 0 <= i < e.children.len() && found_by(#[trigger] e.children[i], search)
}

/// Whether a search for `search_text` shows the element.  An empty search
/// shows every element; letters count without their case.
pub open spec fn shown_for(e: ElementView, search_text: Seq<char>) -> bool {
    search_text.len() == 0 || found_by(e, lowercase_of(search_text))
}

/// Whether `text`, in lower case, holds `search`.
fn text_mentions(text: &String, search: &str) -> (r: bool)
    ensures
        r == mentions(text@, search@),
{
    let lowered = to_lowercase(text.as_str());
    str_contains(lowered.as_str(), search)
}

/// Whether a search for the text `search`, given in lower case, shows the
/// element.
fn is_found_by(element: &ElementInfo, search: &str) -> (r: bool)
    ensures
        r == found_by(element@, search@),
    decreases element,
{
    if text_mentions(&element.name, search) {
        return true;
    }
    let mut i: usize = 0;
    while i < element.properties.len()
        invariant
            i <= element.properties.len(),
            forall|j: int| 0 <= j < i ==> !property_mentions(#[trigger] element@.properties[j], search@),
        decreases element.properties.len() - i,
    {
        let prop = &element.properties[i];
        proof {
            assert(element@.properties[i as int] == prop@);
        }
        if text_mentions(&prop.name, search) || text_mentions(&prop.value, search) || text_mentions(
            &prop.readable_value,
            search,
        ) {
            return true;
        }
        i = i + 1;
    }
    let mut k: usize = 0;
    while k < element.children.len()
        invariant
            k <= element.children.len(),
            !mentions(element@.name, search@),
            forall|j: int|
                0 <= j < element@.properties.len() ==> !property_mentions(
                    #[trigger] element@.properties[j],
                    search@,
                ),
            forall|j: int| 0 <= j < k ==> !found_by(#[trigger] element@.children[j], search@),
        decreases element.children.len() - k,
    {
        proof {
            assert(element@.children[k as int] == element.children@[k as int]@);
        }
        if is_found_by(&element.children[k], search) {
            return true;
        }
        k = k + 1;
    }
    false
}

/// Whether a search for `search_text` shows the element.
pub fn should_show_element(element: &ElementInfo, search_text: &str) -> (r: bool)
    ensures
        r == shown_for(element@, search_text@),
{
    if search_text.is_empty() {
        return true;
    }
    let search = to_lowercase(search_text);
    is_found_by(element, search.as_str())
}

/// The path of an element under the path `parent`.
pub open spec fn path_under(parent: Seq<char>, name: Seq<char>) -> Seq<char> {
    parent + "/"@ + name
}

/// The paths of an element and of everything under it, the element first.
pub open spec fn paths_from(e: ElementView, parent: Seq<char>) -> Seq<Seq<char>>
    decreases e, 0nat,
{
    seq![path_under(parent, e.name)] + paths_upto(e.children, e.children.len(), path_under(parent, e.name))
}

/// The paths of the first `count` elements of `items` and of everything
/// under them.
pub open spec fn paths_upto(items: Seq<ElementView>, count: nat, parent: Seq<char>) -> Seq<Seq<char>>
    decreases items, count,
{
    if count == 0 || count > items.len() {
        Seq::empty()
    } else {
        paths_upto(items, (count - 1) as nat, parent) + paths_from(items[count - 1], parent)
    }
}

/// `list` with those of `items` added that it does not hold yet, each once
/// and in their order: what a set of texts becomes when `items` are put into
/// it, kept in the order of arrival.
pub open spec fn added_once(list: Seq<Seq<char>>, items: Seq<Seq<char>>) -> Seq<Seq<char>>
    decreases items.len(),
{
    if items.len() == 0 {
        list
    } else {
        let so_far = added_once(list, items.drop_last());
        if so_far.contains(items.last()) {
            so_far
        } else {
            so_far.push(items.last())
        }
    }
}

/// Whether no text occurs twice in `list`.
pub open spec fn all_different(list: Seq<Seq<char>>) -> bool {
    forall|i: int, j: int| 0 <= i < j < list.len() ==> list[i] != list[j]
}

/// Adding two lists one after the other is adding them joined.
pub proof fn added_once_in_two_steps(list: Seq<Seq<char>>, first: Seq<Seq<char>>, second: Seq<Seq<char>>)
    ensures
        added_once(added_once(list, first), second) == added_once(list, first + second),
    decreases second.len(),
{
    if second.len() == 0 {
        assert(first + second =~= first);
    } else {
        added_once_in_two_steps(list, first, second.drop_last());
        assert((first + second).drop_last() =~= first + second.drop_last());
        assert((first + second).last() == second.last());
    }
}

/// A list in which no text occurs twice stays so when texts are added; it
/// keeps what it held, at the same places, and holds every text added.
pub proof fn added_once_is_a_set(list: Seq<Seq<char>>, items: Seq<Seq<char>>)
    requires
        all_different(list),
    ensures
        all_different(added_once(list, items)),
        list.len() <= added_once(list, items).len(),
        forall|i: int| 0 <= i < list.len() ==> added_once(list, items)[i] == list[i],
        forall|i: int| 0 <= i < items.len() ==> added_once(list, items).contains(#[trigger] items[i]),
    decreases items.len(),
{
    if items.len() > 0 {
        let front = items.drop_last();
        let so_far = added_once(list, front);
        let all = added_once(list, items);
        added_once_is_a_set(list, front);
        assert forall|i: int| 0 <= i < items.len() implies all.contains(#[trigger] items[i]) by {
            if i < items.len() - 1 {
                assert(front[i] == items[i]);
                let k = choose|k: int| 0 <= k < so_far.len() && so_far[k] == front[i];
                assert(all[k] == items[i]);
            } else if so_far.contains(items.last()) {
            } else {
                assert(all[so_far.len() as int] == items.last());
            }
        }
        if !so_far.contains(items.last()) {
            assert forall|i: int, j: int| 0 <= i < j < all.len() implies all[i] != all[j] by {
                if j == so_far.len() {
                    assert(so_far[i] == all[i]);
                }
            }
        }
    }
}

/// Puts `path` into `paths` unless it is there already.
fn insert_path(paths: &mut Vec<String>, path: String)
    ensures
        crate::text::string_views(final(paths)@) == added_once(crate::text::string_views(old(paths)@), seq![path@]),
{
    let ghost before = crate::text::string_views(paths@);
    proof {
        assert(seq![path@].drop_last() =~= Seq::<Seq<char>>::empty());
        assert(added_once(before, seq![path@].drop_last()) == before);
        assert(seq![path@].last() == path@);
    }
    let mut i: usize = 0;
    while i < paths.len()
        invariant
            i <= paths.len(),
            crate::text::string_views(paths@) == before,
            before == crate::text::string_views(old(paths)@),
            added_once(before, seq![path@]) == if before.contains(path@) {
                before
            } else {
                before.push(path@)
            },
            paths@ == old(paths)@,
            forall|j: int| 0 <= j < i ==> before[j] != path@,
        decreases paths.len() - i,
    {
        if paths[i] == path {
            proof {
                assert(before[i as int] == path@);
                assert(before.contains(path@));
            }
            return ;
        }
        i = i + 1;
    }
    proof {
        assert(!before.contains(path@));
    }
    paths.push(path);
    proof {
        assert(crate::text::string_views(paths@) =~= before.push(path@));
    }
}

/// Puts the paths of `element` and of everything under it into `paths`,
/// which is kept as a set: a path that is there already is not added again.
pub fn collect_paths(element: &ElementInfo, parent_path: &str, paths: &mut Vec<String>)
    ensures
        crate::text::string_views(final(paths)@) == added_once(
            crate::text::string_views(old(paths)@),
            paths_from(element@, parent_path@),
        ),
    decreases element,
{
    let path = crate::text::concat3(parent_path, "/", element.name.as_str());
    let ghost before = crate::text::string_views(paths@);
    insert_path(paths, path.clone());
    proof {
        assert(seq![path@] + paths_upto(element@.children, 0, path@) =~= seq![path@]);
    }
    let mut i: usize = 0;
    while i < element.children.len()
        invariant
            i <= element.children.len(),
            path@ == path_under(parent_path@, element@.name),
            crate::text::string_views(paths@) == added_once(
                before,
                seq![path@] + paths_upto(element@.children, i as nat, path@),
            ),
        decreases element.children.len() - i,
    {
        let ghost so_far = seq![path@] + paths_upto(element@.children, i as nat, path@);
        proof {
            assert(element@.children[i as int] == element.children@[i as int]@);
        }
        collect_paths(&element.children[i], path.as_str(), paths);
        i = i + 1;
        proof {
            let more = paths_from(element@.children[i - 1], path@);
            added_once_in_two_steps(before, so_far, more);
            assert(so_far + more =~= seq![path@] + paths_upto(element@.children, i as nat, path@));
        }
    }
}

/// Puts the paths of all of `elements` and of everything under them into
/// `paths`, which is kept as a set.
pub fn collect_all_paths(elements: &[ElementInfo], paths: &mut Vec<String>)
    ensures
        crate::text::string_views(final(paths)@) == added_once(
            crate::text::string_views(old(paths)@),
            paths_upto(element_views(elements@), elements@.len(), Seq::empty()),
        ),
{
    let ghost before = crate::text::string_views(paths@);
    let mut i: usize = 0;
    while i < elements.len()
        invariant
            i <= elements.len(),
            crate::text::string_views(paths@) == added_once(
                before,
                paths_upto(element_views(elements@), i as nat, Seq::empty()),
            ),
        decreases elements.len() - i,
    {
        let ghost so_far = paths_upto(element_views(elements@), i as nat, Seq::empty());
        proof {
            assert(element_views(elements@)[i as int] == elements@[i as int]@);
            reveal_strlit("");
            assert(""@ =~= Seq::<char>::empty());
        }
        collect_paths(&elements[i], "", paths);
        i = i + 1;
        proof {
            let more = paths_from(element_views(elements@)[i - 1], Seq::empty());
            added_once_in_two_steps(before, so_far, more);
        }
    }
}

} // verus!
