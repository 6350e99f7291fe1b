use dfu::image::Tag;
use dfu::tags::{newest_tag, sort_tags};

fn tag(text: &str, order: u64) -> Tag {
    Tag { text: text.to_string(), order }
}

#[test]
fn tags_are_sorted_and_equals_keep_their_order() {
    let mut tags = vec![tag("3", 3), tag("1a", 1), tag("2", 2), tag("1b", 1), tag("0", 0)];
    sort_tags(&mut tags);
    assert_eq!(tags, vec![tag("0", 0), tag("1a", 1), tag("1b", 1), tag("2", 2), tag("3", 3)]);
    let sorted = tags.clone();
    sort_tags(&mut tags);
    assert_eq!(tags, sorted);
    let mut none: Vec<Tag> = vec![];
    sort_tags(&mut none);
    assert_eq!(none, vec![]);
}

#[test]
fn tags_in_any_order_are_sorted_to_the_same() {
    let mut first = vec![tag("3", 3), tag("1", 1), tag("2", 2), tag("1", 1)];
    let mut second = vec![tag("1", 1), tag("1", 1), tag("3", 3), tag("2", 2)];
    sort_tags(&mut first);
    sort_tags(&mut second);
    assert_eq!(first, second);
    assert_eq!(first, vec![tag("1", 1), tag("1", 1), tag("2", 2), tag("3", 3)]);
}

#[test]
fn newest_tag_is_the_last_of_the_greatest() {
    assert_eq!(newest_tag(&vec![]), None);
    assert_eq!(newest_tag(&vec![None, None]), None);
    assert_eq!(
        newest_tag(&vec![Some(tag("2", 2)), None, Some(tag("3", 3)), Some(tag("3.0", 3)), Some(tag("1", 1))]),
        Some(tag("3.0", 3))
    );
}
