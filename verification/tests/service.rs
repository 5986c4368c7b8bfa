use item_service::errors::ItemError;
use item_service::ids::{format_id, parse_id, ItemId};
use item_service::items::Item;
use item_service::store::Store;

const ID_A: &str = "0102030405060708090a0b0c";
const ID_A_UPPER: &str = "0102030405060708090A0B0C";
const ID_B: &str = "ffffffffffffffffffffffff";

fn id(s: &str) -> ItemId {
    parse_id(s).expect("identifier string should parse")
}

fn payload(name: &str, description: &str) -> Item {
    Item { id: None, name: name.to_string(), description: description.to_string() }
}

#[test]
fn create_then_read_all_includes_exactly_the_item() {
    let mut store = Store::new();
    let created = store.create_item(id(ID_A), &payload("a", "b")).expect("create should succeed");
    assert!(created.same_as(&id(ID_A)));
    let items = store.read_items();
    assert_eq!(items.len(), 1);
    assert_eq!(items[0].name, "a");
    assert_eq!(items[0].description, "b");
    assert!(items[0].id.as_ref().expect("stored item has an id").same_as(&created));
}

#[test]
fn read_all_on_empty_collection_is_empty() {
    let store = Store::new();
    assert!(store.read_items().is_empty());
}

#[test]
fn update_with_invalid_identifier_is_rejected_without_mutation() {
    let mut store = Store::new();
    store.create_item(id(ID_A), &payload("a", "b")).expect("create should succeed");
    let r = store.update_item("not-an-id", &payload("x", "y"));
    assert!(matches!(r, Err(ItemError::InvalidIdentifier)));
    let items = store.read_items();
    assert_eq!(items.len(), 1);
    assert_eq!(items[0].name, "a");
    assert_eq!(items[0].description, "b");
}

#[test]
fn update_of_missing_identifier_returns_none_without_mutation() {
    let mut store = Store::new();
    store.create_item(id(ID_A), &payload("a", "b")).expect("create should succeed");
    let r = store.update_item(ID_B, &payload("x", "y"));
    assert!(matches!(r, Ok(None)));
    let items = store.read_items();
    assert_eq!(items.len(), 1);
    assert_eq!(items[0].name, "a");
}

#[test]
fn update_changes_fields_and_keeps_identifier() {
    let mut store = Store::new();
    let created = store.create_item(id(ID_A), &payload("a", "b")).expect("create should succeed");
    let wire = format_id(&created);
    let updated = store
        .update_item(&wire, &payload("new name", "new description"))
        .expect("update should succeed")
        .expect("the record exists");
    assert_eq!(updated.name, "new name");
    assert_eq!(updated.description, "new description");
    assert!(updated.id.as_ref().expect("updated item keeps its id").same_as(&created));
    let items = store.read_items();
    assert_eq!(items.len(), 1);
    assert_eq!(items[0].name, "new name");
    assert_eq!(items[0].description, "new description");
    assert!(items[0].id.as_ref().expect("stored item keeps its id").same_as(&created));
}

#[test]
fn update_ignores_identifier_in_payload() {
    let mut store = Store::new();
    store.create_item(id(ID_A), &payload("a", "b")).expect("create should succeed");
    let sneaky = Item { id: Some(id(ID_B)), name: "x".to_string(), description: "y".to_string() };
    let updated = store
        .update_item(ID_A, &sneaky)
        .expect("update should succeed")
        .expect("the record exists");
    assert!(updated.id.as_ref().expect("updated item has an id").same_as(&id(ID_A)));
    let items = store.read_items();
    assert!(items[0].id.as_ref().expect("stored item has an id").same_as(&id(ID_A)));
}

#[test]
fn delete_reports_true_once_then_false() {
    let mut store = Store::new();
    store.create_item(id(ID_A), &payload("a", "b")).expect("create should succeed");
    assert_eq!(store.delete_item(ID_A), Ok(true));
    assert_eq!(store.delete_item(ID_A), Ok(false));
}

#[test]
fn delete_with_invalid_identifier_is_rejected_without_mutation() {
    let mut store = Store::new();
    store.create_item(id(ID_A), &payload("a", "b")).expect("create should succeed");
    assert_eq!(store.delete_item(""), Err(ItemError::InvalidIdentifier));
    assert_eq!(store.read_items().len(), 1);
}

#[test]
fn crud_roundtrip_leaves_collection_empty() {
    let mut store = Store::new();
    assert!(store.read_items().is_empty());
    let created = store.create_item(id(ID_A), &payload("a", "b")).expect("create should succeed");
    assert_eq!(store.read_items().len(), 1);
    let wire = format_id(&created);
    let updated = store
        .update_item(&wire, &payload("c", "d"))
        .expect("update should succeed")
        .expect("the record exists");
    assert_eq!(updated.name, "c");
    assert_eq!(store.read_items().len(), 1);
    assert_eq!(store.read_items()[0].name, "c");
    assert_eq!(store.delete_item(&wire), Ok(true));
    assert!(store.read_items().is_empty());
}

#[test]
fn create_strips_client_supplied_identifier() {
    let mut store = Store::new();
    let sneaky = Item { id: Some(id(ID_B)), name: "a".to_string(), description: "b".to_string() };
    let created = store.create_item(id(ID_A), &sneaky).expect("create should succeed");
    assert!(created.same_as(&id(ID_A)));
    let items = store.read_items();
    assert_eq!(items.len(), 1);
    assert!(items[0].id.as_ref().expect("stored item has an id").same_as(&id(ID_A)));
}

#[test]
fn create_with_duplicate_identifier_is_a_storage_error() {
    let mut store = Store::new();
    store.create_item(id(ID_A), &payload("a", "b")).expect("create should succeed");
    let r = store.create_item(id(ID_A), &payload("c", "d"));
    assert!(matches!(r, Err(ItemError::StorageError)));
    assert_eq!(store.read_items().len(), 1);
    assert_eq!(store.read_items()[0].name, "a");
}

#[test]
fn empty_name_and_description_are_permitted() {
    let mut store = Store::new();
    store.create_item(id(ID_A), &payload("", "")).expect("create should succeed");
    let items = store.read_items();
    assert_eq!(items[0].name, "");
    assert_eq!(items[0].description, "");
}

#[test]
fn parse_accepts_both_letter_cases() {
    let lower = id(ID_A);
    let upper = id(ID_A_UPPER);
    assert!(lower.same_as(&upper));
}

#[test]
fn parse_rejects_malformed_identifiers() {
    let malformed = [
        "",
        "not-an-id",
        "0102030405060708090a0b0",
        "0102030405060708090a0b0c0",
        "0102030405060708090a0b0g",
        "zzzzzzzzzzzzzzzzzzzzzzzz",
        "0102030405060708090a0b0C0x",
    ];
    for s in malformed {
        assert_eq!(
            parse_id(s).map(|i| format_id(&i)),
            Err(ItemError::InvalidIdentifier),
            "should reject {:?}",
            s
        );
    }
}

#[test]
fn format_produces_the_lower_case_wire_form() {
    assert_eq!(format_id(&id(ID_A)), ID_A);
    assert_eq!(format_id(&id(ID_A_UPPER)), ID_A);
    assert_eq!(format_id(&id(ID_B)), ID_B);
}

#[test]
fn error_messages_are_fixed() {
    assert_eq!(ItemError::InvalidIdentifier.message(), "Invalid ObjectId");
    assert_eq!(ItemError::StorageError.message(), "storage error");
}
