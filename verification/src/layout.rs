//! Keyboard layout resolution.
//!
//! A layout identifier is a string that names a keyboard layout; the empty
//! identifier leaves the choice to the defaults of the system. The
//! identifier is taken from the first source that yields one: the explicit
//! override, then the configuration text, where it could be read and names a
//! layout. Where no source yields one, the identifier is empty. A source that
//! yields nothing is no failure.
use crate::config::{config_layout, find_layout};
use vstd::prelude::*;

verus! {

/// One place that a layout identifier may come from.
#[derive(Debug, PartialEq, Eq)]
pub enum LayoutSource {
    /// The explicit override; `None` where it is not set.
    Override(Option<String>),
    /// The configuration text; `None` where it could not be read.
    ConfigText(Option<String>),
}

impl LayoutSource {
    /// The identifier that this source yields, if it yields one.
    pub open spec fn yields(self) -> Option<Seq<char>> {
        match self {
            LayoutSource::Override(value) => value.deep_view(),
            LayoutSource::ConfigText(Some(text)) => config_layout(text@),
            LayoutSource::ConfigText(None) => None,
        }
    }

    /// Asks the source for an identifier.
    pub fn produce(&self) -> (layout: Option<String>)
        ensures
            layout.deep_view() == self.yields(),
    {
        match self {
            LayoutSource::Override(Some(value)) => Some(value.clone()),
            LayoutSource::Override(None) => None,
            LayoutSource::ConfigText(Some(text)) => find_layout(text.as_str()),
            LayoutSource::ConfigText(None) => None,
        }
    }
}

/// What the first source that yields anything yields.
pub open spec fn first_yield(sources: Seq<LayoutSource>) -> Option<Seq<char>>
    decreases sources.len(),
{
    if sources.len() == 0 {
        None
    } else {
        match sources.first().yields() {
            Some(value) => Some(value),
            None => first_yield(sources.drop_first()),
        }
    }
}

/// The identifier resolved from an ordered list of sources: what the first
/// yielding source yields, the empty identifier where none yields.
pub open spec fn resolved_from(sources: Seq<LayoutSource>) -> Seq<char> {
    match first_yield(sources) {
        Some(value) => value,
        None => Seq::empty(),
    }
}

/// The identifier resolved from the override and the configuration text.
pub open spec fn resolved(
    layout_override: Option<Seq<char>>,
    config: Option<Seq<char>>,
) -> Seq<char> {
    match layout_override {
        Some(value) => value,
        None => match config {
            Some(text) => match config_layout(text) {
                Some(value) => value,
                None => Seq::empty(),
            },
            None => Seq::empty(),
        },
    }
}

/// Resolves the layout identifier from `sources`, tried in order.
pub fn resolve_from(sources: &Vec<LayoutSource>) -> (layout: String)
    ensures
        layout@ == resolved_from(sources@),
{
    let mut i: usize = 0;
    assert(sources@.skip(0) =~= sources@);
    while i < sources.len()
        invariant
            i <= sources.len(),
            first_yield(sources@) == first_yield(sources@.skip(i as int)),
        decreases sources.len() - i,
    {
        match sources[i].produce() {
            Some(value) => {
                return value;
            },
            None => {},
        }
        assert(sources@.skip(i as int).drop_first() =~= sources@.skip(i + 1));
        i += 1;
    }
    String::new()
}

/// Resolves the layout identifier: the override where it is set, else what
/// the configuration text names where it could be read and names a layout,
/// else the empty identifier.
pub fn resolve(layout_override: Option<String>, config: Option<String>) -> (layout: String)
    ensures
        layout@ == resolved(layout_override.deep_view(), config.deep_view()),
{
    let mut sources: Vec<LayoutSource> = Vec::new();
    sources.push(LayoutSource::Override(layout_override));
    sources.push(LayoutSource::ConfigText(config));
    proof {
        lemma_standard_sources(sources@);
    }
    resolve_from(&sources)
}

/// The override followed by the configuration text resolves as `resolved`
/// says.
pub proof fn lemma_standard_sources(sources: Seq<LayoutSource>)
    requires
        sources.len() == 2,
        sources[0] is Override,
        sources[1] is ConfigText,
    ensures
        resolved_from(sources) == resolved(
            sources[0]->Override_0.deep_view(),
            sources[1]->ConfigText_0.deep_view(),
        ),
{
    let rest = sources.drop_first();
    assert(rest.first() == sources[1]);
    assert(rest.drop_first().len() == 0);
    assert(first_yield(rest.drop_first()) is None);
    assert(first_yield(rest) == sources[1].yields());
}

/// The first source that yields an identifier decides, whatever the
/// sources after it hold.
pub proof fn lemma_first_yielding_source_decides(sources: Seq<LayoutSource>, i: int)
    requires
        0 <= i < sources.len(),
        sources[i].yields() is Some,
        forall|j: int| 0 <= j < i ==> (#[trigger] sources[j]).yields() is None,
    ensures
        resolved_from(sources) == sources[i].yields()->0,
    decreases i,
{
    if i > 0 {
        let rest = sources.drop_first();
        assert forall|j: int| 0 <= j < i - 1 implies (#[trigger] rest[j]).yields() is None by {
            assert(rest[j] == sources[j + 1]);
        }
        lemma_first_yielding_source_decides(rest, i - 1);
    }
}

/// Where no source yields an identifier, the resolved identifier is empty.
pub proof fn lemma_no_source_yields(sources: Seq<LayoutSource>)
    requires
        forall|j: int| 0 <= j < sources.len() ==> (#[trigger] sources[j]).yields() is None,
    ensures
        resolved_from(sources) == Seq::<char>::empty(),
    decreases sources.len(),
{
    if sources.len() > 0 {
        let rest = sources.drop_first();
        assert forall|j: int| 0 <= j < rest.len() implies (#[trigger] rest[j]).yields() is None by {
            assert(rest[j] == sources[j + 1]);
        }
        lemma_no_source_yields(rest);
    }
}

/// The override, where it is set, is the resolved identifier, whatever the
/// configuration text holds.
pub proof fn lemma_override_takes_precedence(value: Seq<char>, config: Option<Seq<char>>)
    ensures
        resolved(Some(value), config) == value,
{
}

/// Without an override, and with a configuration text that could not be read
/// or names no layout, resolution yields the empty identifier.
pub proof fn lemma_fallback_is_empty(config: Option<Seq<char>>)
    requires
        config is Some ==> config_layout(config->0) is None,
    ensures
        resolved(None, config) == Seq::<char>::empty(),
{
}

/// Without an override, a configuration text that names a layout decides.
pub proof fn lemma_config_decides(text: Seq<char>)
    requires
        config_layout(text) is Some,
    ensures
        resolved(None, Some(text)) == config_layout(text)->0,
{
}

} // verus!
