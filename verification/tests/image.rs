use dfu::image::{ContainerImage, Dockerfile, DockerfileUpdate, Tag};

fn tag(text: &str, order: u64) -> Tag {
    Tag { text: text.to_string(), order }
}

fn image(name: &str, text: &str, order: u64) -> ContainerImage {
    ContainerImage { name: name.to_string(), tag: tag(text, order) }
}

fn dockerfile() -> Dockerfile {
    Dockerfile {
        path: Some("Dockerfile".to_string()),
        source: "FROM node:8.0\nFROM alpine:3.12\n".to_string(),
        base_images: vec![image("node", "8.0", 80), image("alpine", "3.12", 312)],
    }
}

#[test]
fn updates_reach_their_stage() {
    let update = DockerfileUpdate { dockerfile: dockerfile(), updates: vec![(1, tag("3.13", 313))] };
    let updated = update.apply();
    assert_eq!(updated.path, Some("Dockerfile".to_string()));
    assert_eq!(updated.source, dockerfile().source);
    assert_eq!(updated.base_images, vec![image("node", "8.0", 80), image("alpine", "3.13", 313)]);
}

#[test]
fn last_update_of_a_stage_is_made() {
    let update = DockerfileUpdate {
        dockerfile: dockerfile(),
        updates: vec![(0, tag("8.1", 81)), (1, tag("3.13", 313)), (0, tag("9.0", 90))],
    };
    assert_eq!(update.apply().base_images, vec![image("node", "9.0", 90), image("alpine", "3.13", 313)]);
}

#[test]
fn updates_without_a_stage_are_passed_over() {
    let update = DockerfileUpdate { dockerfile: dockerfile(), updates: vec![(2, tag("1.0", 10)), (usize::MAX, tag("2.0", 20))] };
    assert_eq!(update.apply(), dockerfile());
    let nothing = DockerfileUpdate { dockerfile: dockerfile(), updates: vec![] };
    assert_eq!(nothing.apply(), dockerfile());
}

#[test]
fn updates_twice_or_in_parts_come_to_the_same() {
    let first = vec![(0, tag("8.1", 81))];
    let second = vec![(0, tag("9.0", 90)), (1, tag("3.13", 313))];
    let all = vec![(0, tag("8.1", 81)), (0, tag("9.0", 90)), (1, tag("3.13", 313))];
    let at_once = DockerfileUpdate { dockerfile: dockerfile(), updates: all.clone() }.apply();
    let half = DockerfileUpdate { dockerfile: dockerfile(), updates: first }.apply();
    assert_eq!(DockerfileUpdate { dockerfile: half, updates: second }.apply(), at_once);
    assert_eq!(DockerfileUpdate { dockerfile: at_once.clone(), updates: all }.apply(), at_once);
}

#[test]
fn the_order_of_updates_of_different_stages_does_not_count() {
    let apply = |updates| DockerfileUpdate { dockerfile: dockerfile(), updates }.apply();
    let updated = apply(vec![(0, tag("9.0", 90)), (1, tag("3.13", 313))]);
    assert_eq!(updated, apply(vec![(1, tag("3.13", 313)), (0, tag("9.0", 90))]));
    assert_eq!(updated.base_images, vec![image("node", "9.0", 90), image("alpine", "3.13", 313)]);
}

#[test]
fn an_image_gets_another_tag() {
    let mut node = image("node", "8.0", 80);
    node.update_image_tag(&tag("8.1", 81));
    assert_eq!(node, image("node", "8.1", 81));
}
