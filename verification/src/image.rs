//! Dockerfiles, the images that they build on, and updates of the tags of those images.

use vstd::prelude::*;

use crate::text::optional_text;

verus! {

/// An image tag: what is shown of it, and its place in the order of all tags.
#[derive(Debug, PartialEq, Eq)]
pub struct Tag {
    pub text: String,
    pub order: u64,
}

/// What a `Tag` stands for.
#[verifier::ext_equal]
pub struct TagView {
    pub text: Seq<char>,
    pub order: u64,
}

impl View for Tag {
    type V = TagView;

    open spec fn view(&self) -> TagView {
        TagView { text: self.text@, order: self.order }
    }
}

impl DeepView for Tag {
    type V = TagView;

    open spec fn deep_view(&self) -> TagView {
        self@
    }
}

impl Clone for Tag {
    fn clone(&self) -> (tag: Self)
        ensures
            tag == *self,
    {
        Tag { text: self.text.clone(), order: self.order }
    }
}

/// An image that a stage of a dockerfile builds on.
#[derive(Debug, PartialEq, Eq)]
pub struct ContainerImage {
    pub name: String,
    pub tag: Tag,
}

/// What a `ContainerImage` stands for.
#[verifier::ext_equal]
pub struct ImageView {
    pub name: Seq<char>,
    pub tag: TagView,
}

impl View for ContainerImage {
    type V = ImageView;

    open spec fn view(&self) -> ImageView {
        ImageView { name: self.name@, tag: self.tag@ }
    }
}

impl DeepView for ContainerImage {
    type V = ImageView;

    open spec fn deep_view(&self) -> ImageView {
        self@
    }
}

impl Clone for ContainerImage {
    fn clone(&self) -> (image: Self)
        ensures
            image == *self,
    {
        ContainerImage { name: self.name.clone(), tag: self.tag.clone() }
    }
}

impl ContainerImage {
    /// Gives the image another tag.
    pub fn update_image_tag(&mut self, tag: &Tag)
        ensures
            final(self)@ == (ImageView { name: old(self)@.name, tag: tag@ }),
    {
        self.tag = tag.clone();
    }
}

/// A dockerfile: where it lies, the text that it was read from, and the base image of each
/// of its stages, in order.
#[derive(Clone, Debug, PartialEq, Eq)]
pub struct Dockerfile {
    pub path: Option<String>,
    pub source: String,
    pub base_images: Vec<ContainerImage>,
}

/// What a `Dockerfile` stands for.
#[verifier::ext_equal]
pub struct DockerfileView {
    pub path: Option<Seq<char>>,
    pub source: Seq<char>,
    pub base_images: Seq<ImageView>,
}

impl View for Dockerfile {
    type V = DockerfileView;

    open spec fn view(&self) -> DockerfileView {
        DockerfileView {
            path: optional_text(self.path),
            source: self.source@,
            base_images: self.base_images.deep_view(),
        }
    }
}

/// The position of a stage in its dockerfile.
pub type StageIndex = usize;

/// A stage, and the tag that its base image is to get.
pub type ImageUpdate = (StageIndex, Tag);

/// A dockerfile, and the updates that were found for it.
#[derive(Clone, Debug, PartialEq, Eq)]
pub struct DockerfileUpdate {
    pub dockerfile: Dockerfile,
    pub updates: Vec<ImageUpdate>,
}

/// The updates as pairs of a stage and a tag.
pub open spec fn updates_view(updates: Seq<ImageUpdate>) -> Seq<(int, TagView)> {
    updates.map_values(|update: ImageUpdate| (update.0 as int, update.1@))
}

/// The tag that `updates` give to a stage: that of the last update for it.
pub open spec fn new_tag(updates: Seq<(int, TagView)>, stage: int) -> Option<TagView>
    decreases updates.len(),
{
    if updates.len() == 0 {
        None
    } else if updates.last().0 == stage {
        Some(updates.last().1)
    } else {
        new_tag(updates.drop_last(), stage)
    }
}

/// The base image of a stage once `updates` are made.
pub open spec fn updated_image(image: ImageView, updates: Seq<(int, TagView)>, stage: int) -> ImageView {
    match new_tag(updates, stage) {
        Some(tag) => ImageView { name: image.name, tag },
        None => image,
    }
}

/// The dockerfile once `updates` are made.
pub open spec fn updated_dockerfile(
    dockerfile: DockerfileView,
    updates: Seq<(int, TagView)>,
) -> DockerfileView {
    DockerfileView {
        path: dockerfile.path,
        source: dockerfile.source,
        base_images: Seq::new(
            dockerfile.base_images.len(),
            |stage: int| updated_image(dockerfile.base_images[stage], updates, stage),
        ),
    }
}

/// Updates change the tags of base images, and nothing else of a dockerfile.
pub proof fn updates_change_only_tags(dockerfile: DockerfileView, updates: Seq<(int, TagView)>)
    ensures
        ({
            let updated = updated_dockerfile(dockerfile, updates);
            &&& updated.path == dockerfile.path
            &&& updated.source == dockerfile.source
            &&& updated.base_images.len() == dockerfile.base_images.len()
            &&& forall|stage: int|
                0 <= stage < dockerfile.base_images.len() ==> (
                #[trigger] updated.base_images[stage]).name == dockerfile.base_images[stage].name
        }),
{
}

/// A stage for which there is no update keeps its base image.
pub proof fn other_stages_keep_their_image(
    dockerfile: DockerfileView,
    updates: Seq<(int, TagView)>,
    stage: int,
)
    requires
        0 <= stage < dockerfile.base_images.len(),
        forall|i: int| 0 <= i < updates.len() ==> (#[trigger] updates[i]).0 != stage,
    ensures
        updated_dockerfile(dockerfile, updates).base_images[stage]
            == dockerfile.base_images[stage],
    decreases updates.len(),
{
    if updates.len() > 0 {
        other_stages_keep_their_image(dockerfile, updates.drop_last(), stage);
    }
}

/// A stage for which there are updates gets the tag of the last of them.
pub proof fn last_update_of_a_stage_counts(
    dockerfile: DockerfileView,
    updates: Seq<(int, TagView)>,
    i: int,
)
    requires
        0 <= i < updates.len(),
        0 <= updates[i].0 < dockerfile.base_images.len(),
        forall|j: int| i < j < updates.len() ==> (#[trigger] updates[j]).0 != updates[i].0,
    ensures
        updated_dockerfile(dockerfile, updates).base_images[updates[i].0].tag == updates[i].1,
    decreases updates.len(),
{
    if i < updates.len() - 1 {
        last_update_of_a_stage_counts(dockerfile, updates.drop_last(), i);
    }
}

/// To make some updates and then others is to make them all in that order.
pub proof fn updates_follow_each_other(
    dockerfile: DockerfileView,
    first: Seq<(int, TagView)>,
    second: Seq<(int, TagView)>,
)
    ensures
        updated_dockerfile(updated_dockerfile(dockerfile, first), second) == updated_dockerfile(
            dockerfile,
            first + second,
        ),
{
    assert forall|stage: int| new_tag(first + second, stage) == (match new_tag(second, stage) {
        Some(tag) => Some(tag),
        None => new_tag(first, stage),
    }) by {
        lemma_new_tag_of_both(first, second, stage);
    }
    assert(updated_dockerfile(updated_dockerfile(dockerfile, first), second)
        =~~= updated_dockerfile(dockerfile, first + second));
}

/// The order of updates for different stages does not count.
pub proof fn updates_of_different_stages_commute(
    dockerfile: DockerfileView,
    first: Seq<(int, TagView)>,
    second: Seq<(int, TagView)>,
)
    requires
        forall|i: int, j: int|
            0 <= i < first.len() && 0 <= j < second.len() ==> (#[trigger] first[i]).0 != (
            #[trigger] second[j]).0,
    ensures
        updated_dockerfile(dockerfile, first + second) == updated_dockerfile(
            dockerfile,
            second + first,
        ),
{
    assert forall|stage: int|
        #[trigger] new_tag(first + second, stage) == new_tag(second + first, stage) by {
        lemma_new_tag_of_both(first, second, stage);
        lemma_new_tag_of_both(second, first, stage);
        if new_tag(first, stage) is Some && new_tag(second, stage) is Some {
            lemma_new_tag_has_an_update(first, stage);
            lemma_new_tag_has_an_update(second, stage);
        }
    }
    assert(updated_dockerfile(dockerfile, first + second) =~~= updated_dockerfile(
        dockerfile,
        second + first,
    ));
}

/// A stage gets a tag only by an update for it.
proof fn lemma_new_tag_has_an_update(updates: Seq<(int, TagView)>, stage: int)
    requires
        new_tag(updates, stage) is Some,
    ensures
        exists|i: int| 0 <= i < updates.len() && (#[trigger] updates[i]).0 == stage,
    decreases updates.len(),
{
    if updates.last().0 != stage {
        let rest = updates.drop_last();
        lemma_new_tag_has_an_update(rest, stage);
        let i = choose|i: int| 0 <= i < rest.len() && (#[trigger] rest[i]).0 == stage;
        assert(updates[i].0 == stage);
    }
}

/// To make the same updates again changes nothing.
pub proof fn updates_are_made_once(dockerfile: DockerfileView, updates: Seq<(int, TagView)>)
    ensures
        updated_dockerfile(updated_dockerfile(dockerfile, updates), updates)
            == updated_dockerfile(dockerfile, updates),
{
    assert(updated_dockerfile(updated_dockerfile(dockerfile, updates), updates)
        =~~= updated_dockerfile(dockerfile, updates));
}

/// The tag of a stage after two lists of updates.
proof fn lemma_new_tag_of_both(
    first: Seq<(int, TagView)>,
    second: Seq<(int, TagView)>,
    stage: int,
)
    ensures
        new_tag(first + second, stage) == (match new_tag(second, stage) {
            Some(tag) => Some(tag),
            None => new_tag(first, stage),
        }),
    decreases second.len(),
{
    if second.len() == 0 {
        assert(first + second == first);
    } else {
        lemma_new_tag_of_both(first, second.drop_last(), stage);
        assert((first + second).drop_last() == first + second.drop_last());
        assert((first + second).last() == second.last());
    }
}

impl DockerfileUpdate {
    /// The dockerfile with the updates made.
    pub fn apply(&self) -> (updated: Dockerfile)
        ensures
            updated@ == updated_dockerfile(self.dockerfile@, updates_view(self.updates@)),
    {
        let ghost updates = updates_view(self.updates@);
        let mut base_images: Vec<ContainerImage> = Vec::new();
        let mut stage: usize = 0;
        while stage < self.dockerfile.base_images.len()
            invariant
                stage <= self.dockerfile.base_images@.len(),
                base_images@.len() == stage,
                updates == updates_view(self.updates@),
                forall|i: int|
                    0 <= i < stage ==> (#[trigger] base_images@[i])@ == updated_image(
                        self.dockerfile.base_images@[i]@,
                        updates,
                        i,
                    ),
            decreases self.dockerfile.base_images.len() - stage,
        {
            let mut image: ContainerImage = self.dockerfile.base_images[stage].clone();
            let mut i: usize = 0;
            assert(updates.take(0).len() == 0);
            while i < self.updates.len()
                invariant
                    i <= self.updates@.len(),
                    stage < self.dockerfile.base_images@.len(),
                    updates == updates_view(self.updates@),
                    image@ == updated_image(
                        self.dockerfile.base_images@[stage as int]@,
                        updates.take(i as int),
                        stage as int,
                    ),
                decreases self.updates.len() - i,
            {
                assert(updates.take(i + 1).drop_last() == updates.take(i as int));
                assert(updates.take(i + 1).last() == (
                    self.updates@[i as int].0 as int,
                    self.updates@[i as int].1@,
                ));
                if self.updates[i].0 == stage {
                    image.update_image_tag(&self.updates[i].1);
                }
                i = i + 1;
            }
            assert(updates.take(i as int) == updates);
            base_images.push(image);
            stage = stage + 1;
        }
        let updated: Dockerfile = Dockerfile {
            path: self.dockerfile.path.clone(),
            source: self.dockerfile.source.clone(),
            base_images,
        };
        assert(updated@.base_images =~= updated_dockerfile(
            self.dockerfile@,
            updates,
        ).base_images);
        updated
    }
}

/// An image that gets another tag keeps its name and has that tag.
pub proof fn images_get_the_whole_tag(image: &mut ContainerImage, tag: Tag, done: ())
    requires
        call_ensures(ContainerImage::update_image_tag, (image, &tag), done),
    ensures
        final(image).name@ == old(image).name@,
        final(image).tag.text@ == tag.text@,
        final(image).tag.order == tag.order,
{
    assert(final(image)@.tag == tag@);
    assert(final(image)@.name == old(image)@.name);
}

/// A dockerfile with its updates made has the path, the text and the stages that it had. The
/// image of a stage keeps its name; it has the tag of the last update for that stage, and where
/// there is none, the tag that it had.
pub proof fn updates_set_the_tags_of_their_stages(
    update: DockerfileUpdate,
    updated: Dockerfile,
    stage: int,
    i: int,
)
    requires
        call_ensures(DockerfileUpdate::apply, (&update,), updated),
        0 <= stage < update.dockerfile.base_images@.len(),
        -1 <= i < update.updates@.len(),
        i >= 0 ==> update.updates@[i].0 == stage,
        forall|j: int| i < j < update.updates@.len() ==> (#[trigger] update.updates@[j]).0 != stage,
    ensures
        updated.path is Some <==> update.dockerfile.path is Some,
        updated.path is Some ==> updated.path->0@ == update.dockerfile.path->0@,
        updated.source@ == update.dockerfile.source@,
        updated.base_images@.len() == update.dockerfile.base_images@.len(),
        updated.base_images@[stage].name@ == update.dockerfile.base_images@[stage].name@,
        ({
            let tag = if i >= 0 {
                update.updates@[i].1
            } else {
                update.dockerfile.base_images@[stage].tag
            };
            &&& updated.base_images@[stage].tag.text@ == tag.text@
            &&& updated.base_images@[stage].tag.order == tag.order
        }),
{
    let before = update.dockerfile@;
    let updates = updates_view(update.updates@);
    let after = updated@;
    assert(after == updated_dockerfile(before, updates));
    assert(before.base_images.len() == update.dockerfile.base_images@.len());
    assert(after.base_images.len() == updated.base_images@.len());
    assert(after.base_images[stage] == updated.base_images@[stage]@);
    assert(before.base_images[stage] == update.dockerfile.base_images@[stage]@);
    assert(updates.len() == update.updates@.len());
    assert(forall|j: int|
        0 <= j < updates.len() ==> #[trigger] updates[j] == (
            update.updates@[j].0 as int,
            update.updates@[j].1@,
        ));
    if i >= 0 {
        last_update_of_a_stage_counts(before, updates, i);
        assert(after.base_images[stage].tag == update.updates@[i].1@);
    } else {
        other_stages_keep_their_image(before, updates, stage);
    }
}

/// What tags stand for tells all of them: their texts, and their places in the order.
pub proof fn views_of_tags_tell_all(tags: Vec<Tag>, i: int)
    requires
        0 <= i < tags@.len(),
    ensures
        tags.deep_view().len() == tags@.len(),
        tags.deep_view()[i].text == tags@[i].text@,
        tags.deep_view()[i].order == tags@[i].order,
        tags@[i]@ == tags.deep_view()[i],
{
}

} // verus!
