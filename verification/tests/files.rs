use oxidrive::file::{File, UpdateFile};
use oxidrive::ids::AccountId;
use oxidrive::services::prepare_upload;
use oxidrive::tag::Tag;

fn tag(s: &str) -> Tag {
    Tag::parse(s).unwrap()
}

fn file() -> File {
    File::new(AccountId::new(), "report.pdf", "application/pdf")
}

#[test]
fn it_creates_a_new_file_with_default_tags() {
    let file = file();
    let default_tags = file.default_tags();
    assert!(file.tags.same_as(&default_tags));
    assert_eq!(file.size, 0);
    assert!(file.hash.is_none());
    assert_eq!(file.tags.len(), 4);
    assert_eq!(file.tags.get("name").unwrap().value.as_deref(), Some("report.pdf"));
    assert_eq!(file.tags.get("content_type").unwrap().value.as_deref(), Some("application/pdf"));
    assert_eq!(file.tags.get("size").unwrap().value.as_deref(), Some("0"));
    assert_eq!(file.tags.get("ext").unwrap().value.as_deref(), Some("pdf"));
}

#[test]
fn a_file_without_extension_has_no_ext_tag() {
    let file = File::new(AccountId::new(), "README", "text/plain");
    assert_eq!(file.tags.len(), 3);
    assert!(file.tags.get("ext").is_none());
}

#[test]
fn it_does_not_add_duplicated_tags() {
    let mut file = file();
    let default_tags = file.default_tags();
    file.add_tags(vec![tag("test"), tag("test")]);
    assert_eq!(file.tags.len(), default_tags.len() + 1);
}

#[test]
fn it_updates_the_tags_without_overriding_the_default_ones() {
    let mut file = file();
    let name = file.tags.get("name").unwrap().duplicate();
    let content_type = file.tags.get("content_type").unwrap().duplicate();
    let size = file.tags.get("size").unwrap().duplicate();

    file.set_tags(vec![tag("name:different"), tag("content_type:changed"), tag("size:0"), tag("added")]);

    assert!(*file.tags.get("name").unwrap() == name);
    assert!(*file.tags.get("content_type").unwrap() == content_type);
    assert!(*file.tags.get("size").unwrap() == size);
    assert!(*file.tags.get("added").unwrap() == tag("added"));
}

fn check_update(data: UpdateFile) {
    let mut file = file();
    let name = data.name.clone();
    let tags: Option<Vec<Tag>> = data.tags.as_ref().map(|ts| ts.iter().map(|t| t.duplicate()).collect());

    file.update(data);

    if let Some(name) = name {
        assert_eq!(file.name, name);
        assert!(*file.tags.get("name").unwrap() == tag(&format!("name:{name}")));
    }

    if let Some(tags) = tags {
        let mut expected_tags = file.default_tags();
        expected_tags.extend(tags);
        assert!(file.tags.same_as(&expected_tags));
    }
}

#[test]
fn it_updates_a_file() {
    check_update(UpdateFile { name: Some("test".into()), ..Default::default() });
    check_update(UpdateFile { tags: Some(vec![tag("added"), tag("hello:world")]), ..Default::default() });
    check_update(UpdateFile { name: Some("test".into()), tags: Some(vec![tag("added"), tag("hello:world")]) });
}

#[test]
fn the_size_and_its_tag_change_together() {
    let mut file = file();
    file.set_size(1234);
    assert_eq!(file.size, 1234);
    assert_eq!(file.tags.get("size").unwrap().value.as_deref(), Some("1234"));
}

#[test]
fn the_hash_is_written_in_lowercase_hexadecimal() {
    let mut file = file();
    assert!(file.hash().is_none());
    let mut bytes = [0u8; 32];
    bytes[0] = 0xab;
    bytes[31] = 0x0f;
    file.set_hash(bytes);
    let hex = file.hash().unwrap();
    assert_eq!(hex.len(), 64);
    assert!(hex.starts_with("ab00"));
    assert!(hex.ends_with("000f"));
}

#[test]
fn an_upload_is_measured_and_hashed_across_its_chunks() {
    let chunks = vec![b"hello ".to_vec(), Vec::new(), b"world".to_vec()];
    let (size, hash) = oxidrive::services::content_digest(&chunks);
    assert_eq!(size, 11);
    assert_eq!(&hash, blake3::hash(b"hello world").as_bytes());

    let file = oxidrive::services::finish_upload(file(), size, hash);
    assert_eq!(file.size, 11);
    assert_eq!(file.tags.get("size").unwrap().value.as_deref(), Some("11"));
    assert_eq!(file.hash().unwrap(), blake3::hash(b"hello world").to_hex().to_string());
}

#[test]
fn an_upload_of_a_new_name_creates_the_file_and_an_existing_one_keeps_its_tags() {
    let owner = AccountId::new();
    let created = prepare_upload(None, owner, "a.txt", "text/plain".to_string());
    assert_eq!(created.owner_id, owner);
    assert_eq!(created.name, "a.txt");
    assert_eq!(created.tags.len(), 4);

    let tagged = created.tagged(tag("keep"));
    let again = prepare_upload(Some(tagged), owner, "a.txt", "text/markdown".to_string());
    assert_eq!(again.content_type, "text/markdown");
    assert!(again.tags.contains_key("keep"));
}
