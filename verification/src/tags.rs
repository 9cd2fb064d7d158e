use vstd::prelude::*;

use crate::description_component::{
    parse_components, ComponentExtractor, ComponentView, DescriptionComponent,
};

verus! {

/// An annotation found in a description, stripped of the surrounding text:
/// a project, a context, or a key:value attribute.
#[derive(PartialEq, Debug)]
pub enum Tag {
    Project(String),
    Context(String),
    KeyValue(String, String),
}

/// The mathematical form of a tag: its payloads as character sequences.
#[verifier::ext_equal]
pub enum TagView {
    Project(Seq<char>),
    Context(Seq<char>),
    KeyValue(Seq<char>, Seq<char>),
}

impl View for Tag {
    type V = TagView;

    open spec fn view(&self) -> TagView {
        match self {
            Tag::Project(p) => TagView::Project(p@),
            Tag::Context(c) => TagView::Context(c@),
            Tag::KeyValue(k, v) => TagView::KeyValue(k@, v@),
        }
    }
}

impl DeepView for Tag {
    type V = TagView;

    open spec fn deep_view(&self) -> TagView {
        self.view()
    }
}

/// The tags of a component sequence, in order: every component that is not
/// plain text, reduced to its payloads.
pub open spec fn tags_of(cs: Seq<ComponentView>) -> Seq<TagView>
    decreases cs.len(),
{
    if cs.len() == 0 {
        Seq::empty()
    } else {
        let rest = tags_of(cs.drop_last());
        match cs.last() {
            ComponentView::Text(_) => rest,
            ComponentView::Project(p) => rest.push(TagView::Project(p)),
            ComponentView::Context(c) => rest.push(TagView::Context(c)),
            ComponentView::KeyValue(k, v) => rest.push(TagView::KeyValue(k, v)),
        }
    }
}

/// Collects the tags of a description.
pub trait TagExtractor: Sized {
    /// What `extract_tags` promises of its result.
    spec fn extract_ensures(self, result: Vec<Tag>) -> bool;

    fn extract_tags(self) -> (result: Vec<Tag>)
        ensures
            self.extract_ensures(result),
    ;
}

impl<'a> TagExtractor for &'a str {
    /// The result lists the tags of the string's component sequence, in
    /// order of appearance.
    open spec fn extract_ensures(self, result: Vec<Tag>) -> bool {
        result.deep_view() == tags_of(parse_components(self@))
    }

    fn extract_tags(self) -> (result: Vec<Tag>) {
        let components = self.extract_components();
        let mut tags: Vec<Tag> = Vec::new();
        let mut idx: usize = 0;
        proof {
            assert(components.deep_view().take(0) =~= Seq::<ComponentView>::empty());
            assert(tags.deep_view() =~= Seq::<TagView>::empty());
        }
        while idx < components.len()
            invariant
                idx <= components.len(),
                components.deep_view() == parse_components(self@),
                tags.deep_view() == tags_of(components.deep_view().take(idx as int)),
            decreases components.len() - idx,
        {
            let ghost prev_tags = tags.deep_view();
            match &components[idx] {
                DescriptionComponent::Text(_) => {},
                DescriptionComponent::Project(p) => {
                    tags.push(Tag::Project(p.clone()));
                },
                DescriptionComponent::Context(c) => {
                    tags.push(Tag::Context(c.clone()));
                },
                DescriptionComponent::KeyValue(k, v) => {
                    tags.push(Tag::KeyValue(k.clone(), v.clone()));
                },
            }
            proof {
                let cdv = components.deep_view();
                assert(cdv.take(idx as int + 1).drop_last() =~= cdv.take(idx as int));
                assert(cdv.take(idx as int + 1).last() == cdv[idx as int]);
                match cdv[idx as int] {
                    ComponentView::Text(_) => {
                        assert(tags.deep_view() =~= prev_tags);
                    },
                    ComponentView::Project(p) => {
                        assert(tags.deep_view() =~= prev_tags.push(TagView::Project(p)));
                    },
                    ComponentView::Context(c) => {
                        assert(tags.deep_view() =~= prev_tags.push(TagView::Context(c)));
                    },
                    ComponentView::KeyValue(k, v) => {
                        assert(tags.deep_view() =~= prev_tags.push(TagView::KeyValue(k, v)));
                    },
                }
            }
            idx = idx + 1;
        }
        proof {
            assert(components.deep_view().take(components@.len() as int) =~= components.deep_view());
        }
        tags
    }
}

} // verus!
