use splinter::dictionary::{init, Dictionaries, IdDictionary};
use splinter::error::SplinterError;
use splinter::tags::{
    proto_tags_to_tags, tags_from_wire, tags_to_proto_tags, tags_to_wire, TagList, WireTag, WireTags,
};

fn blocks() -> IdDictionary {
    IdDictionary::from_pairs(&vec![
        (0, "minecraft:air".to_string()),
        (1, "minecraft:stone".to_string()),
        (2, "minecraft:granite".to_string()),
        (7, "minecraft:bedrock".to_string()),
    ])
}

fn tag(name: &str, entries: &[i32]) -> WireTag {
    WireTag { name: name.to_string(), entries: entries.to_vec() }
}

fn names(list: &[&str]) -> Vec<String> {
    list.iter().map(|s| s.to_string()).collect()
}

#[test]
fn wire_tags_resolve_to_names_in_order() {
    let wire = vec![tag("minecraft:rocks", &[2, 1]), tag("minecraft:nothing", &[])];
    let list = proto_tags_to_tags(&wire, &blocks()).unwrap();
    assert_eq!(list.len(), 2);
    assert_eq!(list.name_at(0), "minecraft:rocks");
    assert_eq!(list.members_at(0), &names(&["minecraft:granite", "minecraft:stone"]));
    assert_eq!(list.name_at(1), "minecraft:nothing");
    assert_eq!(list.members_at(1), &names(&[]));
}

#[test]
fn no_wire_tags_make_an_empty_list() {
    let list = proto_tags_to_tags(&vec![], &blocks()).unwrap();
    assert_eq!(list.len(), 0);
    assert_eq!(list, TagList::new());
}

#[test]
fn unknown_id_is_reported_first_in_wire_order() {
    let wire = vec![tag("a", &[1, 99, 98]), tag("b", &[97])];
    assert_eq!(proto_tags_to_tags(&wire, &blocks()), Err(SplinterError::UnknownId(99)));
    let later = vec![tag("a", &[1]), tag("b", &[0, 97, 99])];
    assert_eq!(proto_tags_to_tags(&later, &blocks()), Err(SplinterError::UnknownId(97)));
}

#[test]
fn tag_list_turns_back_into_wire_tags() {
    let wire = vec![tag("minecraft:rocks", &[2, 1, 2]), tag("minecraft:base", &[7])];
    let list = proto_tags_to_tags(&wire, &blocks()).unwrap();
    assert_eq!(tags_to_proto_tags(&list, &blocks()), Ok(wire));
}

#[test]
fn unknown_name_is_reported_first_in_list_order() {
    let mut list = TagList::new();
    list.insert("a".to_string(), names(&["minecraft:stone", "minecraft:dirt", "minecraft:sand"]));
    list.insert("b".to_string(), names(&["minecraft:gravel"]));
    assert_eq!(
        tags_to_proto_tags(&list, &blocks()),
        Err(SplinterError::UnknownName("minecraft:dirt".to_string()))
    );
}

#[test]
fn a_tag_that_comes_twice_keeps_its_place_and_its_last_members() {
    let wire = vec![tag("x", &[1]), tag("y", &[2]), tag("x", &[7, 0])];
    let list = proto_tags_to_tags(&wire, &blocks()).unwrap();
    assert_eq!(list.len(), 2);
    assert_eq!(list.name_at(0), "x");
    assert_eq!(list.members_at(0), &names(&["minecraft:bedrock", "minecraft:air"]));
    assert_eq!(list.name_at(1), "y");
    assert_eq!(
        tags_to_proto_tags(&list, &blocks()),
        Ok(vec![tag("x", &[7, 0]), tag("y", &[2])])
    );
}

#[test]
fn insert_and_get() {
    let mut list = TagList::new();
    assert_eq!(list.get(&"t".to_string()), None);
    assert_eq!(list.position(&"t".to_string()), None);
    list.insert("t".to_string(), names(&["a", "b"]));
    list.insert("u".to_string(), names(&["c"]));
    assert_eq!(list.get(&"t".to_string()), Some(&names(&["a", "b"])));
    assert_eq!(list.position(&"u".to_string()), Some(1));
    list.insert("t".to_string(), names(&["z"]));
    assert_eq!(list.len(), 2);
    assert_eq!(list.get(&"t".to_string()), Some(&names(&["z"])));
    assert_eq!(list.position(&"t".to_string()), Some(0));
}

fn dictionaries() -> Dictionaries {
    init(
        r#"[{"id": 1, "name": "stone"}, {"id": 2, "name": "dirt"}]"#,
        r#"[{"id": 10, "name": "stick"}]"#,
        r#"[{"id": 20, "name": "water"}, {"id": 21, "name": "lava"}]"#,
        r#"[{"id": 30, "name": "pig"}]"#,
    )
    .ok()
    .unwrap()
}

fn sample_wire() -> WireTags {
    WireTags {
        block_tags: vec![tag("ground", &[2, 1])],
        item_tags: vec![tag("wood", &[10]), tag("none", &[])],
        fluid_tags: vec![tag("hot", &[21]), tag("wet", &[20])],
        entity_tags: vec![],
    }
}

#[test]
fn tags_round_trip() {
    let dicts = dictionaries();
    let tags = tags_from_wire(&sample_wire(), &dicts).unwrap();
    assert_eq!(tags.blocks.members_at(0), &names(&["dirt", "stone"]));
    assert_eq!(tags.fluids.name_at(1), "wet");
    assert_eq!(tags.entities.len(), 0);
    assert_eq!(tags_to_wire(&tags, &dicts), Ok(sample_wire()));
}

#[test]
fn each_kind_uses_its_own_dictionary() {
    let dicts = dictionaries();
    let mut wire = sample_wire();
    wire.item_tags = vec![tag("wrong", &[1])];
    assert_eq!(tags_from_wire(&wire, &dicts), Err(SplinterError::UnknownId(1)));
}

#[test]
fn tags_error_is_that_of_the_first_kind_that_fails() {
    let dicts = dictionaries();
    let mut wire = sample_wire();
    wire.fluid_tags = vec![tag("f", &[500])];
    wire.entity_tags = vec![tag("e", &[600])];
    assert_eq!(tags_from_wire(&wire, &dicts), Err(SplinterError::UnknownId(500)));
    wire.block_tags = vec![tag("b", &[400])];
    assert_eq!(tags_from_wire(&wire, &dicts), Err(SplinterError::UnknownId(400)));
}

#[test]
fn tags_with_an_unknown_name_do_not_turn_into_wire() {
    let dicts = dictionaries();
    let mut tags = tags_from_wire(&sample_wire(), &dicts).unwrap();
    tags.entities.insert("flying".to_string(), names(&["pig", "bat"]));
    assert_eq!(tags_to_wire(&tags, &dicts), Err(SplinterError::UnknownName("bat".to_string())));
}
