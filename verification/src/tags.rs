//! Tag lists: named groups of blocks, items, fluids or entity types.
//!
//! On the wire a tag lists numeric ids. The proxy keeps tags by name, so
//! that what one backend announced can be told to a client in the numbering
//! of the proxy's own dictionaries.

use vstd::prelude::*;
use crate::bijection::{has_pair, has_right, one_to_one};
use crate::dictionary::{id_named, lemma_id_named, Dictionaries, IdDictionary};
use crate::error::SplinterError;

verus! {

/// A tag as the wire has it: its name and the numeric ids of its members.
#[derive(Clone, Debug, PartialEq, Eq)]
pub struct WireTag {
    /// The namespaced name of the tag.
    pub name: String,
    /// The numeric ids of the members, in order.
    pub entries: Vec<i32>,
}

/// The four tag lists of a tags packet.
#[derive(Clone, Debug, PartialEq, Eq)]
pub struct WireTags {
    /// Tags of blocks.
    pub block_tags: Vec<WireTag>,
    /// Tags of items.
    pub item_tags: Vec<WireTag>,
    /// Tags of fluids.
    pub fluid_tags: Vec<WireTag>,
    /// Tags of entity types.
    pub entity_tags: Vec<WireTag>,
}

/// A wire tag as a value: the name's characters and the ids.
pub type WireTagView = (Seq<char>, Seq<i32>);

/// A tag as a value: the name's characters and the members' names.
pub type TagView = (Seq<char>, Seq<Seq<char>>);

/// The names of a list, each by its characters.
pub open spec fn name_views(names: Seq<String>) -> Seq<Seq<char>> {
    Seq::new(names.len(), |i: int| names[i]@)
}

/// The wire tags of a list as values.
pub open spec fn wire_views(tags: Seq<WireTag>) -> Seq<WireTagView> {
    Seq::new(tags.len(), |i: int| (tags[i].name@, tags[i].entries@))
}

/// The tags of a list as values.
pub open spec fn tag_views(tags: Seq<(String, Vec<String>)>) -> Seq<TagView> {
    Seq::new(tags.len(), |i: int| (tags[i].0@, name_views(tags[i].1@)))
}

impl View for WireTags {
    type V = WireTagsView;

    open spec fn view(&self) -> WireTagsView {
        WireTagsView {
            block_tags: wire_views(self.block_tags@),
            item_tags: wire_views(self.item_tags@),
            fluid_tags: wire_views(self.fluid_tags@),
            entity_tags: wire_views(self.entity_tags@),
        }
    }
}

/// The four wire tag lists as values.
pub struct WireTagsView {
    pub block_tags: Seq<WireTagView>,
    pub item_tags: Seq<WireTagView>,
    pub fluid_tags: Seq<WireTagView>,
    pub entity_tags: Seq<WireTagView>,
}

/// Whether `i` is the first place of the list at which a tag has this name.
pub open spec fn is_first_named(list: Seq<TagView>, i: int, name: Seq<char>) -> bool {
    &&& 0 <= i < list.len()
    &&& list[i].0 == name
    &&& forall|j: int| 0 <= j < i ==> (#[trigger] list[j]).0 != name
}

/// Whether the list has a tag of this name.
pub open spec fn has_tag(list: Seq<TagView>, name: Seq<char>) -> bool {
    exists|i: int| is_first_named(list, i, name)
}

/// No two tags of the list share a name.
pub open spec fn distinct_names(list: Seq<TagView>) -> bool {
    forall|i: int, j: int|
        0 <= i < list.len() && 0 <= j < list.len() && (#[trigger] list[i]).0 == (#[trigger] list[j]).0
            ==> i == j
}

/// No two wire tags of the list share a name.
pub open spec fn distinct_wire_names(wire: Seq<WireTagView>) -> bool {
    forall|i: int, j: int|
        0 <= i < wire.len() && 0 <= j < wire.len() && (#[trigger] wire[i]).0 == (#[trigger] wire[j]).0
            ==> i == j
}

/// The list after a tag was set: the members of a tag that the list has are
/// replaced where the tag stands; a new tag goes to the end.
pub open spec fn put_tag(list: Seq<TagView>, name: Seq<char>, members: Seq<Seq<char>>) -> Seq<TagView> {
    if has_tag(list, name) {
        list.update(choose|i: int| is_first_named(list, i, name), (name, members))
    } else {
        list.push((name, members))
    }
}

/// Whether the dictionary holds every id of the list.
pub open spec fn ids_known(entries: Seq<i32>, dictionary: Map<i32, Seq<char>>) -> bool {
    forall|i: int| 0 <= i < entries.len() ==> dictionary.dom().contains(#[trigger] entries[i])
}

/// Whether the dictionary holds every id of every tag of the list.
pub open spec fn all_ids_known(wire: Seq<WireTagView>, dictionary: Map<i32, Seq<char>>) -> bool {
    forall|t: int| 0 <= t < wire.len() ==> ids_known((#[trigger] wire[t]).1, dictionary)
}

/// Whether entry `e` of tag `t` is the first id, in wire order, that the
/// dictionary does not hold.
pub open spec fn is_first_unknown_id(
    wire: Seq<WireTagView>,
    dictionary: Map<i32, Seq<char>>,
    t: int,
    e: int,
) -> bool {
    &&& 0 <= t < wire.len()
    &&& 0 <= e < wire[t].1.len()
    &&& !dictionary.dom().contains(wire[t].1[e])
    &&& ids_known(wire[t].1.take(e), dictionary)
    &&& all_ids_known(wire.take(t), dictionary)
}

/// The names that a dictionary gives to the ids of a list.
pub open spec fn names_of_ids(entries: Seq<i32>, dictionary: Map<i32, Seq<char>>) -> Seq<Seq<char>> {
    Seq::new(entries.len(), |i: int| dictionary[entries[i]])
}

/// The tag list that wire tags make, read in order: each tag by name, with
/// the names of its members; a tag that comes twice keeps its first place
/// and its last members.
pub open spec fn tag_list_of(wire: Seq<WireTagView>, dictionary: Map<i32, Seq<char>>) -> Seq<TagView>
    decreases wire.len(),
{
    if wire.len() == 0 {
        Seq::empty()
    } else {
        put_tag(
            tag_list_of(wire.drop_last(), dictionary),
            wire.last().0,
            names_of_ids(wire.last().1, dictionary),
        )
    }
}

/// Whether the dictionary holds every name of the list.
pub open spec fn names_known(members: Seq<Seq<char>>, dictionary: Map<i32, Seq<char>>) -> bool {
    forall|i: int| 0 <= i < members.len() ==> has_right(dictionary, #[trigger] members[i])
}

/// Whether every member of every tag resolves in the dictionary.
pub open spec fn all_names_known(list: Seq<TagView>, dictionary: Map<i32, Seq<char>>) -> bool {
    forall|t: int| 0 <= t < list.len() ==> names_known((#[trigger] list[t]).1, dictionary)
}

/// Whether member `e` of tag `t` is the first name, in list order, that the
/// dictionary does not hold.
pub open spec fn is_first_unknown_name(
    list: Seq<TagView>,
    dictionary: Map<i32, Seq<char>>,
    t: int,
    e: int,
) -> bool {
    &&& 0 <= t < list.len()
    &&& 0 <= e < list[t].1.len()
    &&& !has_right(dictionary, list[t].1[e])
    &&& names_known(list[t].1.take(e), dictionary)
    &&& all_names_known(list.take(t), dictionary)
}

/// The ids that a dictionary gives to the names of a list.
pub open spec fn ids_of_names(members: Seq<Seq<char>>, dictionary: Map<i32, Seq<char>>) -> Seq<i32> {
    Seq::new(members.len(), |i: int| id_named(dictionary, members[i])->0)
}

/// The wire tags of a tag list: each tag in its place, with the ids of its members.
pub open spec fn wire_of(list: Seq<TagView>, dictionary: Map<i32, Seq<char>>) -> Seq<WireTagView> {
    Seq::new(list.len(), |t: int| (list[t].0, ids_of_names(list[t].1, dictionary)))
}

/// A mapping from tag names to ordered lists of member names.
#[derive(Clone, Debug, PartialEq, Eq)]
pub struct TagList(Vec<(String, Vec<String>)>);

impl View for TagList {
    type V = Seq<TagView>;

    closed spec fn view(&self) -> Seq<TagView> {
        tag_views(self.0@)
    }
}

/// At most one place is the first of a name.
pub proof fn lemma_first_named_unique(list: Seq<TagView>, i: int, k: int, name: Seq<char>)
    requires
        is_first_named(list, i, name),
        is_first_named(list, k, name),
    ensures
        i == k,
{
    if i < k {
        assert(list[i].0 != name);
    } else if k < i {
        assert(list[k].0 != name);
    }
}

/// Setting a tag keeps the names of a list distinct, keeps the members that
/// resolve, and leaves the tag in the list.
pub proof fn lemma_put_tag(list: Seq<TagView>, name: Seq<char>, members: Seq<Seq<char>>)
    requires
        distinct_names(list),
    ensures
        distinct_names(put_tag(list, name, members)),
        has_tag(put_tag(list, name, members), name),
        forall|d: Map<i32, Seq<char>>|
            all_names_known(list, d) && names_known(members, d) ==> #[trigger] all_names_known(
                put_tag(list, name, members),
                d,
            ),
{
    let after = put_tag(list, name, members);
    if has_tag(list, name) {
        let at = choose|i: int| is_first_named(list, i, name);
        assert(after.len() == list.len());
        assert forall|i: int, j: int|
            0 <= i < after.len() && 0 <= j < after.len() && (#[trigger] after[i]).0 == (#[trigger] after[j]).0
        implies i == j by {
            assert(after[i].0 == list[i].0);
            assert(after[j].0 == list[j].0);
        }
        assert(is_first_named(after, at, name)) by {
            assert forall|j: int| 0 <= j < at implies (#[trigger] after[j]).0 != name by {
                assert(list[j].0 != name);
            }
        }
        assert forall|d: Map<i32, Seq<char>>|
            all_names_known(list, d) && names_known(members, d) implies #[trigger] all_names_known(
            after,
            d,
        ) by {
            assert forall|t: int| 0 <= t < after.len() implies names_known((#[trigger] after[t]).1, d) by {
                if t != at {
                    assert(after[t] == list[t]);
                }
            }
        }
    } else {
        assert forall|i: int| 0 <= i < list.len() implies (#[trigger] list[i]).0 != name by {
            if list[i].0 == name {
                lemma_has_tag(list, i, name);
            }
        }
        assert forall|i: int, j: int|
            0 <= i < after.len() && 0 <= j < after.len() && (#[trigger] after[i]).0 == (#[trigger] after[j]).0
        implies i == j by {
            if i < list.len() {
                assert(after[i] == list[i]);
            }
            if j < list.len() {
                assert(after[j] == list[j]);
            }
        }
        assert(is_first_named(after, list.len() as int, name)) by {
            assert forall|j: int| 0 <= j < list.len() implies (#[trigger] after[j]).0 != name by {
                assert(after[j] == list[j]);
            }
        }
        assert forall|d: Map<i32, Seq<char>>|
            all_names_known(list, d) && names_known(members, d) implies #[trigger] all_names_known(
            after,
            d,
        ) by {
            assert forall|t: int| 0 <= t < after.len() implies names_known((#[trigger] after[t]).1, d) by {
                if t < list.len() {
                    assert(after[t] == list[t]);
                }
            }
        }
    }
}

/// A list in which some tag has the name has a first tag of the name.
pub proof fn lemma_has_tag(list: Seq<TagView>, i: int, name: Seq<char>)
    requires
        0 <= i < list.len(),
        list[i].0 == name,
    ensures
        has_tag(list, name),
    decreases i,
{
    if exists|j: int| 0 <= j < i && (#[trigger] list[j]).0 == name {
        let j = choose|j: int| 0 <= j < i && (#[trigger] list[j]).0 == name;
        lemma_has_tag(list, j, name);
    } else {
        assert(is_first_named(list, i, name));
    }
}

impl TagList {
    /// No two tags of the list share a name.
    pub open spec fn wf(&self) -> bool {
        distinct_names(self@)
    }

    /// Whether every member of every tag resolves in the dictionary.
    pub open spec fn resolves_in(&self, dictionary: Map<i32, Seq<char>>) -> bool {
        all_names_known(self@, dictionary)
    }

    /// A list without tags.
    pub fn new() -> (list: TagList)
        ensures
            list.wf(),
            list@ == Seq::<TagView>::empty(),
    {
        let list = TagList(Vec::new());
        assert(list@ =~= Seq::<TagView>::empty());
        list
    }

    /// The number of tags.
    pub fn len(&self) -> (n: usize)
        ensures
            n == self@.len(),
    {
        self.0.len()
    }

    /// The place of the tag of this name, if the list has one.
    pub fn position(&self, name: &String) -> (res: Option<usize>)
        ensures
            match res {
                Some(i) => is_first_named(self@, i as int, name@),
                None => !has_tag(self@, name@),
            },
    {
        let mut i: usize = 0;
        while i < self.0.len()
            invariant
                i <= self.0.len(),
                forall|j: int| 0 <= j < i ==> (#[trigger] self@[j]).0 != name@,
            decreases self.0.len() - i,
        {
            if self.0[i].0 == *name {
                assert(self@[i as int].0 == name@);
                return Some(i);
            }
            assert(self@[i as int].0 != name@);
            i = i + 1;
        }
        proof {
            assert forall|k: int| !is_first_named(self@, k, name@) by {
                if 0 <= k < self@.len() {
                    assert(self@[k].0 != name@);
                }
            }
        }
        None
    }

    /// The name of the tag at a place.
    pub fn name_at(&self, i: usize) -> (name: &String)
        requires
            i < self@.len(),
        ensures
            name@ == self@[i as int].0,
    {
        &self.0[i].0
    }

    /// The members of the tag at a place.
    pub fn members_at(&self, i: usize) -> (members: &Vec<String>)
        requires
            i < self@.len(),
        ensures
            name_views(members@) == self@[i as int].1,
    {
        &self.0[i].1
    }

    /// The members of the tag of this name, if the list has one.
    pub fn get(&self, name: &String) -> (res: Option<&Vec<String>>)
        ensures
            match res {
                Some(members) => exists|i: int|
                    is_first_named(self@, i, name@) && name_views(members@) == self@[i].1,
                None => !has_tag(self@, name@),
            },
    {
        match self.position(name) {
            Some(i) => Some(&self.0[i].1),
            None => None,
        }
    }

    /// Sets the members of a tag. A tag that the list has keeps its place;
    /// a new tag goes to the end.
    pub fn insert(&mut self, name: String, members: Vec<String>)
        requires
            old(self).wf(),
        ensures
            final(self).wf(),
            final(self)@ == put_tag(old(self)@, name@, name_views(members@)),
    {
        proof {
            lemma_put_tag(self@, name@, name_views(members@));
        }
        let ghost before = self@;
        match self.position(&name) {
            Some(i) => {
                proof {
                    let chosen = choose|k: int| is_first_named(before, k, name@);
                    lemma_first_named_unique(before, i as int, chosen, name@);
                }
                self.0.set(i, (name, members));
                assert(self@ =~= put_tag(before, name@, name_views(members@)));
            },
            None => {
                self.0.push((name, members));
                assert(self@ =~= put_tag(before, name@, name_views(members@)));
            },
        }
    }
}

/// The tags of the four kinds, by name.
#[derive(Clone, Debug, PartialEq, Eq)]
pub struct Tags {
    /// Tags of blocks.
    pub blocks: TagList,
    /// Tags of items.
    pub items: TagList,
    /// Tags of fluids.
    pub fluids: TagList,
    /// Tags of entity types.
    pub entities: TagList,
}

/// The four tag lists as values.
pub struct TagsView {
    pub blocks: Seq<TagView>,
    pub items: Seq<TagView>,
    pub fluids: Seq<TagView>,
    pub entities: Seq<TagView>,
}

impl View for Tags {
    type V = TagsView;

    open spec fn view(&self) -> TagsView {
        TagsView {
            blocks: self.blocks@,
            items: self.items@,
            fluids: self.fluids@,
            entities: self.entities@,
        }
    }
}

impl Tags {
    /// In each of the four lists, no two tags share a name.
    pub open spec fn wf(&self) -> bool {
        &&& self.blocks.wf()
        &&& self.items.wf()
        &&& self.fluids.wf()
        &&& self.entities.wf()
    }
}

/// The names of the ids of one wire tag, or the first id that the
/// dictionary does not hold.
fn names_of_entries(entries: &Vec<i32>, map: &IdDictionary) -> (res: Result<Vec<String>, usize>)
    ensures
        match res {
            Ok(names) => ids_known(entries@, map@) && name_views(names@) == names_of_ids(entries@, map@),
            Err(e) => e < entries@.len() && !map@.dom().contains(entries@[e as int]) && ids_known(
                entries@.take(e as int),
                map@,
            ),
        },
{
    let mut names: Vec<String> = Vec::new();
    let mut i: usize = 0;
    while i < entries.len()
        invariant
            i <= entries.len(),
            names@.len() == i,
            forall|j: int| 0 <= j < i ==> map@.dom().contains(#[trigger] entries@[j]),
            forall|j: int| 0 <= j < i ==> (#[trigger] names@[j])@ == map@[entries@[j]],
        decreases entries.len() - i,
    {
        match map.name_of(entries[i]) {
            Some(name) => {
                names.push(name);
            },
            None => {
                assert(ids_known(entries@.take(i as int), map@));
                return Err(i);
            },
        }
        i = i + 1;
    }
    assert(name_views(names@) =~= names_of_ids(entries@, map@));
    Ok(names)
}

/// Whether a tag list, or the error in its place, is what wire tags give.
pub open spec fn is_tag_list_of(
    res: Result<TagList, SplinterError>,
    wire: Seq<WireTagView>,
    dictionary: Map<i32, Seq<char>>,
) -> bool {
    match res {
        Ok(list) => {
            &&& all_ids_known(wire, dictionary)
            &&& list@ == tag_list_of(wire, dictionary)
            &&& list.wf()
            &&& list.resolves_in(dictionary)
        },
        Err(err) => exists|t: int, e: int|
            is_first_unknown_id(wire, dictionary, t, e) && err == SplinterError::UnknownId(
                wire[t].1[e],
            ),
    }
}

/// Resolves wire tags against a dictionary: each tag by name, with the names
/// of its members in order. Fails with `UnknownId`, which carries the first
/// id in wire order that the dictionary does not hold.
pub fn proto_tags_to_tags(proto_tags: &Vec<WireTag>, map: &IdDictionary) -> (res: Result<
    TagList,
    SplinterError,
>)
    requires
        map.wf(),
    ensures
        is_tag_list_of(res, wire_views(proto_tags@), map@),
{
    let ghost wire = wire_views(proto_tags@);
    let mut list = TagList::new();
    let mut t: usize = 0;
    assert(wire.take(0) =~= Seq::empty());
    while t < proto_tags.len()
        invariant
            t <= proto_tags.len(),
            wire == wire_views(proto_tags@),
            map.wf(),
            list.wf(),
            list.resolves_in(map@),
            all_ids_known(wire.take(t as int), map@),
            list@ == tag_list_of(wire.take(t as int), map@),
        decreases proto_tags.len() - t,
    {
        match names_of_entries(&proto_tags[t].entries, map) {
            Ok(members) => {
                proof {
                    let next = wire.take(t + 1);
                    assert(next.drop_last() =~= wire.take(t as int));
                    assert(next.last() == wire[t as int]);
                    lemma_put_tag(list@, wire[t as int].0, name_views(members@));
                    assert(names_known(name_views(members@), map@)) by {
                        assert forall|i: int| 0 <= i < name_views(members@).len() implies has_right(
                            map@,
                            #[trigger] name_views(members@)[i],
                        ) by {
                            let ids = proto_tags@[t as int].entries@;
                            assert(name_views(members@).len() == names_of_ids(ids, map@).len());
                            assert(name_views(members@)[i] == names_of_ids(ids, map@)[i]);
                            assert(has_pair(map@, ids[i], name_views(members@)[i]));
                        }
                    }
                    assert forall|k: int| 0 <= k < next.len() implies ids_known(
                        (#[trigger] next[k]).1,
                        map@,
                    ) by {
                        if k < t {
                            assert(next[k] == wire.take(t as int)[k]);
                        }
                    }
                }
                list.insert(proto_tags[t].name.clone(), members);
            },
            Err(e) => {
                proof {
                    assert(is_first_unknown_id(wire, map@, t as int, e as int));
                }
                return Err(SplinterError::UnknownId(proto_tags[t].entries[e]));
            },
        }
        t = t + 1;
    }
    assert(wire.take(proto_tags.len() as int) =~= wire);
    Ok(list)
}

/// The ids of the members of one tag, or the place of the first name that
/// the dictionary does not hold.
fn ids_of_members(members: &Vec<String>, map: &IdDictionary) -> (res: Result<Vec<i32>, usize>)
    requires
        map.wf(),
    ensures
        match res {
            Ok(ids) => names_known(name_views(members@), map@) && ids@ == ids_of_names(
                name_views(members@),
                map@,
            ),
            Err(e) => e < members@.len() && !has_right(map@, members@[e as int]@) && names_known(
                name_views(members@).take(e as int),
                map@,
            ),
        },
{
    let mut ids: Vec<i32> = Vec::new();
    let mut i: usize = 0;
    while i < members.len()
        invariant
            i <= members.len(),
            map.wf(),
            ids@.len() == i,
            forall|j: int| 0 <= j < i ==> has_right(map@, #[trigger] name_views(members@)[j]),
            forall|j: int| 0 <= j < i ==> #[trigger] ids@[j] == id_named(map@, members@[j]@)->0,
        decreases members.len() - i,
    {
        match map.id_of(members[i].as_str()) {
            Some(id) => {
                ids.push(id);
                assert(has_right(map@, name_views(members@)[i as int]));
            },
            None => {
                assert(names_known(name_views(members@).take(i as int), map@)) by {
                    assert forall|j: int| 0 <= j < i implies has_right(
                        map@,
                        #[trigger] name_views(members@).take(i as int)[j],
                    ) by {
                        assert(has_right(map@, name_views(members@)[j]));
                    }
                }
                return Err(i);
            },
        }
        i = i + 1;
    }
    assert(ids@ =~= ids_of_names(name_views(members@), map@));
    Ok(ids)
}

/// Whether wire tags, or the error in their place, are what a tag list gives.
pub open spec fn is_wire_of(
    res: Result<Vec<WireTag>, SplinterError>,
    list: Seq<TagView>,
    dictionary: Map<i32, Seq<char>>,
) -> bool {
    match res {
        Ok(wire) => all_names_known(list, dictionary) && wire_views(wire@) == wire_of(list, dictionary),
        Err(err) => exists|t: int, e: int|
            is_first_unknown_name(list, dictionary, t, e) && (err matches SplinterError::UnknownName(
                name,
            ) && name@ == list[t].1[e]),
    }
}

/// Turns a tag list into wire tags: each tag in its place, with the numeric
/// ids of its members in order. Fails with `UnknownName`, which carries the
/// first member name in list order that the dictionary does not hold.
pub fn tags_to_proto_tags(tags: &TagList, map: &IdDictionary) -> (res: Result<
    Vec<WireTag>,
    SplinterError,
>)
    requires
        map.wf(),
    ensures
        is_wire_of(res, tags@, map@),
{
    let mut wire: Vec<WireTag> = Vec::new();
    let mut t: usize = 0;
    while t < tags.len()
        invariant
            t <= tags@.len(),
            map.wf(),
            wire@.len() == t,
            all_names_known(tags@.take(t as int), map@),
            forall|k: int|
                0 <= k < t ==> (#[trigger] wire@[k]).name@ == tags@[k].0 && wire@[k].entries@
                    == ids_of_names(tags@[k].1, map@),
        decreases tags@.len() - t,
    {
        let members = tags.members_at(t);
        match ids_of_members(members, map) {
            Ok(entries) => {
                let name = tags.name_at(t).clone();
                proof {
                    let next = tags@.take(t + 1);
                    assert forall|k: int| 0 <= k < next.len() implies names_known(
                        (#[trigger] next[k]).1,
                        map@,
                    ) by {
                        if k < t {
                            assert(next[k] == tags@.take(t as int)[k]);
                        }
                    }
                }
                wire.push(WireTag { name, entries });
            },
            Err(e) => {
                proof {
                    assert(is_first_unknown_name(tags@, map@, t as int, e as int));
                }
                return Err(SplinterError::UnknownName(members[e].clone()));
            },
        }
        t = t + 1;
    }
    assert(tags@.take(tags@.len() as int) =~= tags@);
    assert(wire_views(wire@) =~= wire_of(tags@, map@));
    Ok(wire)
}

/// Whether tags, or the error in their place, are what the four wire lists
/// give. The lists are read in the order blocks, items, fluids, entities, and
/// the error is that of the first list that fails.
pub open spec fn is_tags_of(res: Result<Tags, SplinterError>, wire: WireTagsView, dictionaries: &Dictionaries) -> bool {
    match res {
        Ok(tags) => {
            &&& is_tag_list_of(Ok(tags.blocks), wire.block_tags, dictionaries.blocks@)
            &&& is_tag_list_of(Ok(tags.items), wire.item_tags, dictionaries.items@)
            &&& is_tag_list_of(Ok(tags.fluids), wire.fluid_tags, dictionaries.fluids@)
            &&& is_tag_list_of(Ok(tags.entities), wire.entity_tags, dictionaries.entities@)
        },
        Err(err) => {
            ||| is_tag_list_of(Err(err), wire.block_tags, dictionaries.blocks@)
            ||| {
                &&& all_ids_known(wire.block_tags, dictionaries.blocks@)
                &&& is_tag_list_of(Err(err), wire.item_tags, dictionaries.items@)
            }
            ||| {
                &&& all_ids_known(wire.block_tags, dictionaries.blocks@)
                &&& all_ids_known(wire.item_tags, dictionaries.items@)
                &&& is_tag_list_of(Err(err), wire.fluid_tags, dictionaries.fluids@)
            }
            ||| {
                &&& all_ids_known(wire.block_tags, dictionaries.blocks@)
                &&& all_ids_known(wire.item_tags, dictionaries.items@)
                &&& all_ids_known(wire.fluid_tags, dictionaries.fluids@)
                &&& is_tag_list_of(Err(err), wire.entity_tags, dictionaries.entities@)
            }
        },
    }
}

/// Resolves the four wire tag lists of a tags packet, each against the
/// dictionary of its kind. Fails with `UnknownId` on the first id that its
/// dictionary does not hold.
pub fn tags_from_wire(wire: &WireTags, dictionaries: &Dictionaries) -> (res: Result<Tags, SplinterError>)
    requires
        dictionaries.wf(),
    ensures
        is_tags_of(res, wire@, dictionaries),
        res is Ok ==> res->Ok_0.wf(),
{
    let blocks = match proto_tags_to_tags(&wire.block_tags, &dictionaries.blocks) {
        Ok(list) => list,
        Err(e) => {
            return Err(e);
        },
    };
    let items = match proto_tags_to_tags(&wire.item_tags, &dictionaries.items) {
        Ok(list) => list,
        Err(e) => {
            return Err(e);
        },
    };
    let fluids = match proto_tags_to_tags(&wire.fluid_tags, &dictionaries.fluids) {
        Ok(list) => list,
        Err(e) => {
            return Err(e);
        },
    };
    let entities = match proto_tags_to_tags(&wire.entity_tags, &dictionaries.entities) {
        Ok(list) => list,
        Err(e) => {
            return Err(e);
        },
    };
    Ok(Tags { blocks, items, fluids, entities })
}

/// Whether wire tags, or the error in their place, are what the four tag
/// lists give. The lists are turned in the order blocks, items, fluids,
/// entities, and the error is that of the first list that fails.
pub open spec fn is_wire_of_tags(res: Result<WireTags, SplinterError>, tags: TagsView, dictionaries: &Dictionaries) -> bool {
    match res {
        Ok(wire) => {
            &&& is_wire_of(Ok(wire.block_tags), tags.blocks, dictionaries.blocks@)
            &&& is_wire_of(Ok(wire.item_tags), tags.items, dictionaries.items@)
            &&& is_wire_of(Ok(wire.fluid_tags), tags.fluids, dictionaries.fluids@)
            &&& is_wire_of(Ok(wire.entity_tags), tags.entities, dictionaries.entities@)
        },
        Err(err) => {
            ||| is_wire_of(Err(err), tags.blocks, dictionaries.blocks@)
            ||| {
                &&& all_names_known(tags.blocks, dictionaries.blocks@)
                &&& is_wire_of(Err(err), tags.items, dictionaries.items@)
            }
            ||| {
                &&& all_names_known(tags.blocks, dictionaries.blocks@)
                &&& all_names_known(tags.items, dictionaries.items@)
                &&& is_wire_of(Err(err), tags.fluids, dictionaries.fluids@)
            }
            ||| {
                &&& all_names_known(tags.blocks, dictionaries.blocks@)
                &&& all_names_known(tags.items, dictionaries.items@)
                &&& all_names_known(tags.fluids, dictionaries.fluids@)
                &&& is_wire_of(Err(err), tags.entities, dictionaries.entities@)
            }
        },
    }
}

/// Turns the tags of the four kinds into the wire tag lists of a tags
/// packet, each with the dictionary of its kind. Fails with `UnknownName` on
/// the first member name that its dictionary does not hold.
pub fn tags_to_wire(tags: &Tags, dictionaries: &Dictionaries) -> (res: Result<WireTags, SplinterError>)
    requires
        dictionaries.wf(),
    ensures
        is_wire_of_tags(res, tags@, dictionaries),
{
    let block_tags = match tags_to_proto_tags(&tags.blocks, &dictionaries.blocks) {
        Ok(wire) => wire,
        Err(e) => {
            return Err(e);
        },
    };
    let item_tags = match tags_to_proto_tags(&tags.items, &dictionaries.items) {
        Ok(wire) => wire,
        Err(e) => {
            return Err(e);
        },
    };
    let fluid_tags = match tags_to_proto_tags(&tags.fluids, &dictionaries.fluids) {
        Ok(wire) => wire,
        Err(e) => {
            return Err(e);
        },
    };
    let entity_tags = match tags_to_proto_tags(&tags.entities, &dictionaries.entities) {
        Ok(wire) => wire,
        Err(e) => {
            return Err(e);
        },
    };
    Ok(WireTags { block_tags, item_tags, fluid_tags, entity_tags })
}

/// Wire tags with distinct names make a tag list that has one tag for each
/// of them, in the same order.
pub proof fn lemma_tag_list_of_distinct(wire: Seq<WireTagView>, dictionary: Map<i32, Seq<char>>)
    requires
        distinct_wire_names(wire),
    ensures
        tag_list_of(wire, dictionary) == Seq::new(
            wire.len(),
            |t: int| (wire[t].0, names_of_ids(wire[t].1, dictionary)),
        ),
    decreases wire.len(),
{
    let plain = Seq::new(wire.len(), |t: int| (wire[t].0, names_of_ids(wire[t].1, dictionary)));
    if wire.len() == 0 {
        assert(tag_list_of(wire, dictionary) =~= plain);
    } else {
        let front = wire.drop_last();
        assert forall|i: int, j: int|
            0 <= i < front.len() && 0 <= j < front.len() && (#[trigger] front[i]).0 == (#[trigger] front[j]).0
        implies i == j by {
            assert(front[i] == wire[i]);
            assert(front[j] == wire[j]);
        }
        lemma_tag_list_of_distinct(front, dictionary);
        let list = tag_list_of(front, dictionary);
        let name = wire.last().0;
        assert forall|k: int| !is_first_named(list, k, name) by {
            if 0 <= k < list.len() {
                assert(list[k].0 == front[k].0);
                assert(front[k] == wire[k]);
                assert(wire[k].0 != wire[wire.len() - 1].0);
            }
        }
        assert(tag_list_of(wire, dictionary) =~= plain);
    }
}

/// Tag round-trip for one list: wire tags whose ids the dictionary all
/// holds, and whose names are distinct, come back unchanged when they are
/// resolved to names and turned into wire tags again.
pub proof fn lemma_tag_round_trip(wire: Seq<WireTagView>, dictionary: Map<i32, Seq<char>>)
    requires
        one_to_one(dictionary),
        all_ids_known(wire, dictionary),
        distinct_wire_names(wire),
    ensures
        all_names_known(tag_list_of(wire, dictionary), dictionary),
        wire_of(tag_list_of(wire, dictionary), dictionary) == wire,
{
    lemma_tag_list_of_distinct(wire, dictionary);
    let list = tag_list_of(wire, dictionary);
    let back = wire_of(list, dictionary);
    assert forall|t: int| 0 <= t < list.len() implies names_known((#[trigger] list[t]).1, dictionary) by {
        assert forall|i: int| 0 <= i < list[t].1.len() implies has_right(
            dictionary,
            #[trigger] list[t].1[i],
        ) by {
            assert(ids_known(wire[t].1, dictionary));
            assert(has_pair(dictionary, wire[t].1[i], list[t].1[i]));
        }
    }
    assert forall|t: int| 0 <= t < wire.len() implies back[t] == wire[t] by {
        assert(ids_known(wire[t].1, dictionary));
        assert forall|i: int| 0 <= i < wire[t].1.len() implies back[t].1[i] == wire[t].1[i] by {
            lemma_id_named(dictionary, wire[t].1[i], dictionary[wire[t].1[i]]);
        }
        assert(back[t].1 =~= wire[t].1);
    }
    assert(back =~= wire);
}

/// Tag round-trip: when every numeric id of a tags packet is in the
/// dictionary of its kind, and no list of the packet names a tag twice,
/// `tags_to_wire` gives back what `tags_from_wire` was given.
pub proof fn lemma_tags_round_trip(
    wire: WireTagsView,
    dictionaries: &Dictionaries,
    tags: Tags,
    back: Result<WireTags, SplinterError>,
)
    requires
        dictionaries.wf(),
        all_ids_known(wire.block_tags, dictionaries.blocks@),
        all_ids_known(wire.item_tags, dictionaries.items@),
        all_ids_known(wire.fluid_tags, dictionaries.fluids@),
        all_ids_known(wire.entity_tags, dictionaries.entities@),
        distinct_wire_names(wire.block_tags),
        distinct_wire_names(wire.item_tags),
        distinct_wire_names(wire.fluid_tags),
        distinct_wire_names(wire.entity_tags),
        is_tags_of(Ok(tags), wire, dictionaries),
        is_wire_of_tags(back, tags@, dictionaries),
    ensures
        back is Ok,
        back->Ok_0@ == wire,
{
    lemma_tag_round_trip(wire.block_tags, dictionaries.blocks@);
    lemma_tag_round_trip(wire.item_tags, dictionaries.items@);
    lemma_tag_round_trip(wire.fluid_tags, dictionaries.fluids@);
    lemma_tag_round_trip(wire.entity_tags, dictionaries.entities@);
    if back is Err {
        let err = back->Err_0;
        assert forall|list: Seq<TagView>, d: Map<i32, Seq<char>>|
            all_names_known(list, d) implies !#[trigger] is_wire_of(Err(err), list, d) by {
            if is_wire_of(Err(err), list, d) {
                let (t, e) = choose|t: int, e: int|
                    is_first_unknown_name(list, d, t, e) && (err matches SplinterError::UnknownName(name)
                        && name@ == list[t].1[e]);
                assert(names_known(list[t].1, d));
                assert(has_right(d, list[t].1[e]));
            }
        }
    }
}

} // verus!
