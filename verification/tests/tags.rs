use todo_txt::tags::{Tag, TagExtractor};

#[test]
fn tag_extractor_should_extract_tags_from_description() {
    let tags = "This @description has a lot of +tags and is due:tomorrow !".extract_tags();

    assert_eq!(tags[0], Tag::Context(String::from("description")));
    assert_eq!(tags[1], Tag::Project(String::from("tags")));
    assert_eq!(
        tags[2],
        Tag::KeyValue(String::from("due"), String::from("tomorrow"))
    );
}
