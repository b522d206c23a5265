//! The standard widget types, and the registry that offers them all.

pub mod basic;
pub mod container;
pub mod text;

use crate::registry::{registered, Entries, WidgetInfo, WidgetInfoView, WidgetRegistry};
use crate::strmap::has_key;
use vstd::prelude::*;

verus! {

/// The entries after registering a type, or the same entries where the
/// type is registered already.
pub open spec fn with_registered(entries: Entries, info: WidgetInfoView) -> Entries {
    match registered(entries, info) {
        Ok(next) => next,
        Err(_) => entries,
    }
}

/// The entries after registering the listed types one after the other.
pub open spec fn register_all(infos: Seq<WidgetInfoView>) -> Entries
    decreases infos.len(),
{
    if infos.len() == 0 {
        Seq::empty()
    } else {
        with_registered(register_all(infos.drop_last()), infos.last())
    }
}

/// The standard widget types in the order in which the palette shows them:
/// layout, text, interactive, form, other.
pub open spec fn standard_infos() -> Seq<WidgetInfoView> {
    seq![
        container::RowContainer::info(),
        container::ColumnContainer::info(),
        container::GridContainer::info(),
        container::Card::info(),
        basic::Spacer::info(),
        text::HeadingWidget::info(),
        text::ParagraphWidget::info(),
        text::TextWidget::info(),
        basic::Button::info(),
        basic::Link::info(),
        basic::Image::info(),
        basic::TextInput::info(),
        basic::TextArea::info(),
        basic::Checkbox::info(),
        basic::Divider::info(),
    ]
}

/// The entries of a list of types, each under its type tag.
pub open spec fn entries_for(infos: Seq<WidgetInfoView>) -> Entries {
    infos.map_values(|info: WidgetInfoView| (info.widget_type, info))
}

/// No two of the listed types have the same type tag.
pub open spec fn distinct_tags(infos: Seq<WidgetInfoView>) -> bool {
    forall|i: int, j: int|
        0 <= i < j < infos.len() ==> infos[i].widget_type != infos[j].widget_type
}

/// Registering types with different tags, one after the other, registers
/// them all, in that order.
pub proof fn lemma_register_all(infos: Seq<WidgetInfoView>)
    requires
        distinct_tags(infos),
    ensures
        register_all(infos) == entries_for(infos),
    decreases infos.len(),
{
    if infos.len() > 0 {
        let front = infos.drop_last();
        lemma_register_all(front);
        let tag = infos.last().widget_type;
        if has_key(entries_for(front), tag) {
            let i = choose|i: int|
                0 <= i < entries_for(front).len() && #[trigger] entries_for(front)[i].0 == tag;
            assert(infos[i].widget_type == infos[infos.len() - 1].widget_type);
        }
        assert(entries_for(front).push((tag, infos.last())) =~= entries_for(infos));
    } else {
        assert(entries_for(infos) =~= Seq::empty());
    }
}

/// The standard widget types have fifteen different type tags.
pub proof fn lemma_standard_tags()
    ensures
        standard_infos().len() == 15,
        distinct_tags(standard_infos()),
{
    reveal_strlit("container.row");
    reveal_strlit("container.column");
    reveal_strlit("container.grid");
    reveal_strlit("container.card");
    reveal_strlit("layout.spacer");
    reveal_strlit("text.heading");
    reveal_strlit("text.paragraph");
    reveal_strlit("text");
    reveal_strlit("basic.button");
    reveal_strlit("basic.link");
    reveal_strlit("basic.image");
    reveal_strlit("form.textinput");
    reveal_strlit("form.textarea");
    reveal_strlit("form.checkbox");
    reveal_strlit("basic.divider");
    let infos = standard_infos();
    assert(infos[0].widget_type.len() == 13 && infos[0].widget_type[0] == 'c');
    assert(infos[1].widget_type.len() == 16);
    assert(infos[2].widget_type.len() == 14 && infos[2].widget_type[10] == 'g');
    assert(infos[3].widget_type.len() == 14 && infos[3].widget_type[10] == 'c');
    assert(infos[4].widget_type.len() == 13 && infos[4].widget_type[0] == 'l');
    assert(infos[5].widget_type.len() == 12 && infos[5].widget_type[0] == 't');
    assert(infos[6].widget_type.len() == 14 && infos[6].widget_type[0] == 't');
    assert(infos[7].widget_type.len() == 4);
    assert(infos[8].widget_type.len() == 12 && infos[8].widget_type[0] == 'b');
    assert(infos[9].widget_type.len() == 10);
    assert(infos[10].widget_type.len() == 11);
    assert(infos[11].widget_type.len() == 14 && infos[11].widget_type[0] == 'f');
    assert(infos[12].widget_type.len() == 13 && infos[12].widget_type[0] == 'f'
        && infos[12].widget_type[5] == 't');
    assert(infos[13].widget_type.len() == 13 && infos[13].widget_type[0] == 'f'
        && infos[13].widget_type[5] == 'c');
    assert(infos[14].widget_type.len() == 13 && infos[14].widget_type[0] == 'b');
}

/// The registry of the standard types offers all fifteen, in the order in
/// which they are listed.
pub proof fn lemma_standard_registry()
    ensures
        register_all(standard_infos()) == entries_for(standard_infos()),
        register_all(standard_infos()).len() == 15,
{
    lemma_standard_tags();
    lemma_register_all(standard_infos());
}

impl WidgetRegistry {
    /// Registers a type unless it is registered already.
    fn offer(&mut self, info: WidgetInfo, done: Ghost<Seq<WidgetInfoView>>)
        requires
            old(self)@ == register_all(done@),
        ensures
            final(self)@ == register_all(done@.push(info@)),
    {
        assert(done@.push(info@).drop_last() =~= done@);
        let _ = self.register(info);
    }

    /// A registry with the standard widget types.
    pub fn with_standard_widgets() -> (r: Self)
        ensures
            r@ == entries_for(standard_infos()),
    {
        let mut registry = WidgetRegistry::new();
        let ghost mut done: Seq<WidgetInfoView> = Seq::empty();
        registry.offer(container::RowContainer::factory(), Ghost(done));
        proof {
            done = done.push(container::RowContainer::info());
        }
        registry.offer(container::ColumnContainer::factory(), Ghost(done));
        proof {
            done = done.push(container::ColumnContainer::info());
        }
        registry.offer(container::GridContainer::factory(), Ghost(done));
        proof {
            done = done.push(container::GridContainer::info());
        }
        registry.offer(container::Card::factory(), Ghost(done));
        proof {
            done = done.push(container::Card::info());
        }
        registry.offer(basic::Spacer::factory(), Ghost(done));
        proof {
            done = done.push(basic::Spacer::info());
        }
        registry.offer(text::HeadingWidget::factory(), Ghost(done));
        proof {
            done = done.push(text::HeadingWidget::info());
        }
        registry.offer(text::ParagraphWidget::factory(), Ghost(done));
        proof {
            done = done.push(text::ParagraphWidget::info());
        }
        registry.offer(text::TextWidget::factory(), Ghost(done));
        proof {
            done = done.push(text::TextWidget::info());
        }
        registry.offer(basic::Button::factory(), Ghost(done));
        proof {
            done = done.push(basic::Button::info());
        }
        registry.offer(basic::Link::factory(), Ghost(done));
        proof {
            done = done.push(basic::Link::info());
        }
        registry.offer(basic::Image::factory(), Ghost(done));
        proof {
            done = done.push(basic::Image::info());
        }
        registry.offer(basic::TextInput::factory(), Ghost(done));
        proof {
            done = done.push(basic::TextInput::info());
        }
        registry.offer(basic::TextArea::factory(), Ghost(done));
        proof {
            done = done.push(basic::TextArea::info());
        }
        registry.offer(basic::Checkbox::factory(), Ghost(done));
        proof {
            done = done.push(basic::Checkbox::info());
        }
        registry.offer(basic::Divider::factory(), Ghost(done));
        proof {
            done = done.push(basic::Divider::info());
            assert(done =~= standard_infos());
            lemma_standard_registry();
        }
        registry
    }
}

} // verus!
