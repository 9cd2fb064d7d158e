use vstd::prelude::*;

use crate::chars::{
    is_key_char, is_whitespace, key_run, lemma_key_run, lemma_nonspace_run, nonspace_run,
    scan_key_run, scan_nonspace_run, whitespace,
};
use crate::parsers::{Parser, ParserResult};

verus! {

/// One segment of a task description: plain text, a `+project` tag, a
/// `@context` tag, or a `key:value` attribute. A description is an ordered
/// sequence of these, and writing them back in order reproduces the
/// description exactly.
#[derive(PartialEq, Debug, Clone)]
pub enum DescriptionComponent {
    Text(String),
    Project(String),
    Context(String),
    KeyValue(String, String),
}

pub type DescriptionComponents = Vec<DescriptionComponent>;

/// The mathematical form of a component: its payloads as character sequences.
#[verifier::ext_equal]
pub enum ComponentView {
    Text(Seq<char>),
    Project(Seq<char>),
    Context(Seq<char>),
    KeyValue(Seq<char>, Seq<char>),
}

impl View for DescriptionComponent {
    type V = ComponentView;

    open spec fn view(&self) -> ComponentView {
        match self {
            DescriptionComponent::Text(t) => ComponentView::Text(t@),
            DescriptionComponent::Project(p) => ComponentView::Project(p@),
            DescriptionComponent::Context(c) => ComponentView::Context(c@),
            DescriptionComponent::KeyValue(k, v) => ComponentView::KeyValue(k@, v@),
        }
    }
}

impl DeepView for DescriptionComponent {
    type V = ComponentView;

    open spec fn deep_view(&self) -> ComponentView {
        self.view()
    }
}

/// A project tag starts at `i`: a `+` followed directly by at least one
/// non-whitespace character.
pub open spec fn project_at(s: Seq<char>, i: int) -> bool {
    &&& 0 <= i
    &&& i + 1 < s.len()
    &&& s[i] == '+'
    &&& !is_whitespace(s[i + 1])
}

/// A context tag starts at `i`: a `@` followed directly by at least one
/// non-whitespace character.
pub open spec fn context_at(s: Seq<char>, i: int) -> bool {
    &&& 0 <= i
    &&& i + 1 < s.len()
    &&& s[i] == '@'
    &&& !is_whitespace(s[i + 1])
}

/// A `key:value` tag starts at `i`: one or more key characters, a colon,
/// then one or more key characters.
pub open spec fn key_value_at(s: Seq<char>, i: int) -> bool {
    let k = key_run(s, i);
    &&& 0 <= i
    &&& k >= 1
    &&& i + k < s.len()
    &&& s[i + k] == ':'
    &&& key_run(s, i + k + 1) >= 1
}

/// Some tag starts at `i`.
pub open spec fn tag_at(s: Seq<char>, i: int) -> bool {
    project_at(s, i) || context_at(s, i) || key_value_at(s, i)
}

/// A position where the plain-text parser must stop: a tag that stands right
/// after a whitespace character. A tag glued to preceding non-whitespace text
/// is not recognized; it is swallowed as plain text. The tag parsers
/// themselves anchor at the very start of their input, so the two views of
/// where a tag begins agree.
pub open spec fn text_boundary_at(s: Seq<char>, j: int) -> bool {
    &&& 1 <= j < s.len()
    &&& is_whitespace(s[j - 1])
    &&& tag_at(s, j)
}

/// The first text boundary at or after `j`, or the end of `s` if there is
/// none.
pub open spec fn text_end(s: Seq<char>, j: int) -> int
    decreases s.len() - j,
{
    if j >= s.len() {
        s.len() as int
    } else if text_boundary_at(s, j) {
        j
    } else {
        text_end(s, j + 1)
    }
}

/// `text_end` stays between `j` and the end of `s`, skips no boundary, and
/// stops only at a boundary or at the end.
pub proof fn lemma_text_end(s: Seq<char>, j: int)
    requires
        0 <= j <= s.len(),
    ensures
        j <= text_end(s, j) <= s.len(),
        forall|k: int| j <= k < text_end(s, j) ==> !text_boundary_at(s, k),
        text_end(s, j) == s.len() || text_boundary_at(s, text_end(s, j)),
    decreases s.len() - j,
{
    if j < s.len() && !text_boundary_at(s, j) {
        lemma_text_end(s, j + 1);
    }
}

/// What one step of the description parser recognizes at the start of `s`
/// and how many characters it consumes: the first match among project,
/// context, key:value and plain text, tried in that fixed priority order.
/// Plain text runs to the next text boundary, so a step on a non-empty input
/// always succeeds.
pub open spec fn component_step(s: Seq<char>) -> Option<(ComponentView, int)> {
    if project_at(s, 0) {
        let e = 1 + nonspace_run(s, 1);
        Some((ComponentView::Project(s.subrange(1, e)), e))
    } else if context_at(s, 0) {
        let e = 1 + nonspace_run(s, 1);
        Some((ComponentView::Context(s.subrange(1, e)), e))
    } else if key_value_at(s, 0) {
        let k = key_run(s, 0);
        let e = k + 1 + key_run(s, k + 1);
        Some((ComponentView::KeyValue(s.subrange(0, k), s.subrange(k + 1, e)), e))
    } else if s.len() > 0 {
        let e = text_end(s, 1);
        Some((ComponentView::Text(s.subrange(0, e)), e))
    } else {
        None
    }
}

/// How a component is written in a description.
pub open spec fn component_chars(c: ComponentView) -> Seq<char> {
    match c {
        ComponentView::Text(t) => t,
        ComponentView::Project(p) => seq!['+'] + p,
        ComponentView::Context(x) => seq!['@'] + x,
        ComponentView::KeyValue(k, v) => k + seq![':'] + v,
    }
}

/// A step on a non-empty input succeeds, consumes at least one character and
/// at most the whole input, and returns a component that is written exactly
/// as the consumed prefix.
pub proof fn lemma_component_step(s: Seq<char>)
    requires
        s.len() > 0,
    ensures
        component_step(s) is Some,
        1 <= component_step(s)->Some_0.1 <= s.len(),
        component_chars(component_step(s)->Some_0.0) == s.subrange(
            0,
            component_step(s)->Some_0.1,
        ),
{
    if project_at(s, 0) || context_at(s, 0) {
        lemma_nonspace_run(s, 1);
        lemma_nonspace_run(s, 2);
        let e = 1 + nonspace_run(s, 1);
        assert(nonspace_run(s, 1) >= 1);
        assert(component_chars(component_step(s)->Some_0.0) =~= s.subrange(0, e));
    } else if key_value_at(s, 0) {
        let k = key_run(s, 0);
        lemma_key_run(s, 0);
        lemma_key_run(s, k + 1);
        let e = k + 1 + key_run(s, k + 1);
        assert(component_chars(component_step(s)->Some_0.0) =~= s.subrange(0, e));
    } else {
        lemma_text_end(s, 1);
        let e = text_end(s, 1);
        assert(component_chars(component_step(s)->Some_0.0) =~= s.subrange(0, e));
    }
}

/// The ordered component sequence of a description: repeated steps until the
/// input is exhausted. Defined for every string, so every description has
/// exactly one parse.
pub open spec fn parse_components(s: Seq<char>) -> Seq<ComponentView>
    decreases s.len(),
    via parse_components_decreases
{
    match component_step(s) {
        Some((c, e)) => seq![c] + parse_components(s.skip(e)),
        None => Seq::empty(),
    }
}

#[via_fn]
proof fn parse_components_decreases(s: Seq<char>) {
    if s.len() > 0 {
        lemma_component_step(s);
    }
}

/// The description that a component sequence writes: each component's
/// characters, concatenated in order.
pub open spec fn components_chars(cs: Seq<ComponentView>) -> Seq<char>
    decreases cs.len(),
{
    if cs.len() == 0 {
        Seq::empty()
    } else {
        component_chars(cs[0]) + components_chars(cs.drop_first())
    }
}

/// Round trip: parsing a description and writing the components back in
/// order reproduces the original string exactly, whatever the string.
pub proof fn lemma_parse_render_round_trip(s: Seq<char>)
    ensures
        components_chars(parse_components(s)) == s,
    decreases s.len(),
{
    if s.len() == 0 {
        assert(components_chars(parse_components(s)) =~= s);
    } else {
        lemma_component_step(s);
        let c = component_step(s)->Some_0.0;
        let e = component_step(s)->Some_0.1;
        let rest = parse_components(s.skip(e));
        lemma_parse_render_round_trip(s.skip(e));
        assert((seq![c] + rest).drop_first() =~= rest);
        assert(components_chars(seq![c] + rest) == component_chars(c) + components_chars(rest));
        assert(component_chars(c) + s.skip(e) =~= s);
    }
}

/// Idempotence: parsing the string that a parse writes back gives that same
/// parse again.
pub proof fn lemma_parse_idempotent(s: Seq<char>)
    ensures
        parse_components(components_chars(parse_components(s))) == parse_components(s),
{
    lemma_parse_render_round_trip(s);
}

/// A description parses to the empty sequence exactly when it is empty.
pub proof fn lemma_parse_empty(s: Seq<char>)
    ensures
        parse_components(s).len() == 0 <==> s.len() == 0,
{
    if s.len() > 0 {
        lemma_component_step(s);
    }
}

/// A component's payloads are well-formed: no payload is empty, a project
/// or context name holds no whitespace, and a key or value holds neither
/// whitespace nor a colon.
pub open spec fn component_payloads_wf(c: ComponentView) -> bool {
    match c {
        ComponentView::Text(t) => t.len() > 0,
        ComponentView::Project(p) => p.len() > 0 && forall|i: int|
            0 <= i < p.len() ==> !is_whitespace(#[trigger] p[i]),
        ComponentView::Context(x) => x.len() > 0 && forall|i: int|
            0 <= i < x.len() ==> !is_whitespace(#[trigger] x[i]),
        ComponentView::KeyValue(k, v) => {
            &&& k.len() > 0
            &&& forall|i: int| 0 <= i < k.len() ==> is_key_char(#[trigger] k[i])
            &&& v.len() > 0
            &&& forall|i: int| 0 <= i < v.len() ==> is_key_char(#[trigger] v[i])
        },
    }
}

/// Every component of a parse is well-formed in the sense of
/// `component_payloads_wf`.
pub proof fn lemma_parse_components_wf(s: Seq<char>)
    ensures
        forall|i: int|
            0 <= i < parse_components(s).len() ==> component_payloads_wf(
                #[trigger] parse_components(s)[i],
            ),
    decreases s.len(),
{
    if s.len() > 0 {
        lemma_component_step(s);
        let c = component_step(s)->Some_0.0;
        let e = component_step(s)->Some_0.1;
        assert(component_payloads_wf(c)) by {
            if project_at(s, 0) || context_at(s, 0) {
                lemma_nonspace_run(s, 1);
                lemma_nonspace_run(s, 2);
            } else if key_value_at(s, 0) {
                let k = key_run(s, 0);
                lemma_key_run(s, 0);
                lemma_key_run(s, k + 1);
            } else {
                lemma_text_end(s, 1);
            }
        };
        lemma_parse_components_wf(s.skip(e));
        assert forall|i: int| 0 <= i < parse_components(s).len() implies component_payloads_wf(
            parse_components(s)[i],
        ) by {
            if i > 0 {
                assert(parse_components(s)[i] == parse_components(s.skip(e))[i - 1]);
            }
        }
    }
}

/// The project names of a component sequence, in order of appearance.
pub open spec fn project_names(cs: Seq<ComponentView>) -> Seq<Seq<char>>
    decreases cs.len(),
{
    if cs.len() == 0 {
        Seq::empty()
    } else {
        let rest = project_names(cs.drop_last());
        match cs.last() {
            ComponentView::Project(p) => rest.push(p),
            _ => rest,
        }
    }
}

/// The context names of a component sequence, in order of appearance.
pub open spec fn context_names(cs: Seq<ComponentView>) -> Seq<Seq<char>>
    decreases cs.len(),
{
    if cs.len() == 0 {
        Seq::empty()
    } else {
        let rest = context_names(cs.drop_last());
        match cs.last() {
            ComponentView::Context(c) => rest.push(c),
            _ => rest,
        }
    }
}

/// The key-to-value mapping of a component sequence; when a key repeats,
/// the later occurrence wins.
pub open spec fn options_map(cs: Seq<ComponentView>) -> Map<Seq<char>, Seq<char>>
    decreases cs.len(),
{
    if cs.len() == 0 {
        Map::empty()
    } else {
        let rest = options_map(cs.drop_last());
        match cs.last() {
            ComponentView::KeyValue(k, v) => rest.insert(k, v),
            _ => rest,
        }
    }
}

/// Decides `project_at`.
fn check_project_at(s: &str, i: usize, n: usize) -> (r: bool)
    requires
        n == s@.len(),
        i <= n,
    ensures
        r == project_at(s@, i as int),
{
    i < n && n - i >= 2 && s.get_char(i) == '+' && !whitespace(s.get_char(i + 1))
}

/// Decides `context_at`.
fn check_context_at(s: &str, i: usize, n: usize) -> (r: bool)
    requires
        n == s@.len(),
        i <= n,
    ensures
        r == context_at(s@, i as int),
{
    i < n && n - i >= 2 && s.get_char(i) == '@' && !whitespace(s.get_char(i + 1))
}

/// Decides `key_value_at`.
fn check_key_value_at(s: &str, i: usize, n: usize) -> (r: bool)
    requires
        n == s@.len(),
        i <= n,
    ensures
        r == key_value_at(s@, i as int),
{
    let k = scan_key_run(s, i, n);
    k >= 1 && i + k < n && s.get_char(i + k) == ':' && scan_key_run(s, i + k + 1, n) >= 1
}

/// Decides `tag_at`.
fn check_tag_at(s: &str, i: usize, n: usize) -> (r: bool)
    requires
        n == s@.len(),
        i <= n,
    ensures
        r == tag_at(s@, i as int),
{
    check_project_at(s, i, n) || check_context_at(s, i, n) || check_key_value_at(s, i, n)
}

/// Finds `text_end`: the first text boundary at or after `j0`, or the end.
fn scan_text_end(s: &str, j0: usize, n: usize) -> (r: usize)
    requires
        n == s@.len(),
        1 <= j0 <= n,
    ensures
        r == text_end(s@, j0 as int),
        j0 <= r <= n,
{
    let mut j: usize = j0;
    while j < n && !(whitespace(s.get_char(j - 1)) && check_tag_at(s, j, n))
        invariant
            n == s@.len(),
            1 <= j0 <= j <= n,
            text_end(s@, j0 as int) == text_end(s@, j as int),
        decreases n - j,
    {
        j = j + 1;
    }
    j
}

/// Recognizes a `+project` tag at the very start of the input; the payload
/// excludes the leading `+` and runs to the next whitespace or the end.
pub struct ProjectParser {}

impl Parser for ProjectParser {
    type Value = DescriptionComponent;

    /// A match is returned exactly when a project tag starts the input.
    open spec fn parse_ensures<'a>(
        input: &'a str,
        result: Option<ParserResult<'a, DescriptionComponent>>,
    ) -> bool {
        match result {
            Some(pr) => {
                &&& project_at(input@, 0)
                &&& pr.value@ == ComponentView::Project(
                    input@.subrange(1, 1 + nonspace_run(input@, 1)),
                )
                &&& pr.remaining@ == input@.skip(1 + nonspace_run(input@, 1))
            },
            None => !project_at(input@, 0),
        }
    }

    fn parse<'a>(input: &'a str) -> (result: Option<ParserResult<'a, DescriptionComponent>>) {
        let n = input.unicode_len();
        if !check_project_at(input, 0, n) {
            return None;
        }
        let run = scan_nonspace_run(input, 1, n);
        let payload = String::from_str(input.substring_char(1, 1 + run));
        Some(
            ParserResult {
                value: DescriptionComponent::Project(payload),
                remaining: input.substring_char(1 + run, n),
            },
        )
    }
}

/// Recognizes a `@context` tag at the very start of the input; the payload
/// excludes the leading `@` and runs to the next whitespace or the end.
pub struct ContextParser {}

impl Parser for ContextParser {
    type Value = DescriptionComponent;

    /// A match is returned exactly when a context tag starts the input.
    open spec fn parse_ensures<'a>(
        input: &'a str,
        result: Option<ParserResult<'a, DescriptionComponent>>,
    ) -> bool {
        match result {
            Some(pr) => {
                &&& context_at(input@, 0)
                &&& pr.value@ == ComponentView::Context(
                    input@.subrange(1, 1 + nonspace_run(input@, 1)),
                )
                &&& pr.remaining@ == input@.skip(1 + nonspace_run(input@, 1))
            },
            None => !context_at(input@, 0),
        }
    }

    fn parse<'a>(input: &'a str) -> (result: Option<ParserResult<'a, DescriptionComponent>>) {
        let n = input.unicode_len();
        if !check_context_at(input, 0, n) {
            return None;
        }
        let run = scan_nonspace_run(input, 1, n);
        let payload = String::from_str(input.substring_char(1, 1 + run));
        Some(
            ParserResult {
                value: DescriptionComponent::Context(payload),
                remaining: input.substring_char(1 + run, n),
            },
        )
    }
}

/// Recognizes a `key:value` tag at the very start of the input; key and
/// value exclude the separating colon and contain no whitespace or colon.
pub struct KeyValueParser {}

impl Parser for KeyValueParser {
    type Value = DescriptionComponent;

    /// A match is returned exactly when a `key:value` tag starts the input.
    open spec fn parse_ensures<'a>(
        input: &'a str,
        result: Option<ParserResult<'a, DescriptionComponent>>,
    ) -> bool {
        let k = key_run(input@, 0);
        let e = k + 1 + key_run(input@, k + 1);
        match result {
            Some(pr) => {
                &&& key_value_at(input@, 0)
                &&& pr.value@ == ComponentView::KeyValue(
                    input@.subrange(0, k),
                    input@.subrange(k + 1, e),
                )
                &&& pr.remaining@ == input@.skip(e)
            },
            None => !key_value_at(input@, 0),
        }
    }

    fn parse<'a>(input: &'a str) -> (result: Option<ParserResult<'a, DescriptionComponent>>) {
        let n = input.unicode_len();
        if !check_key_value_at(input, 0, n) {
            return None;
        }
        let k = scan_key_run(input, 0, n);
        let v = scan_key_run(input, k + 1, n);
        let key = String::from_str(input.substring_char(0, k));
        let value = String::from_str(input.substring_char(k + 1, k + 1 + v));
        Some(
            ParserResult {
                value: DescriptionComponent::KeyValue(key, value),
                remaining: input.substring_char(k + 1 + v, n),
            },
        )
    }
}

/// Consumes plain text from the start of the input up to, and excluding, the
/// next text boundary. It reports no match when the input is empty or when a
/// tag already starts the input, so a match always consumes at least one
/// character.
pub struct NormalTextParser {}

impl Parser for NormalTextParser {
    type Value = DescriptionComponent;

    /// A match is returned exactly when the input is non-empty and starts
    /// with no tag; the text then runs to the first text boundary.
    open spec fn parse_ensures<'a>(
        input: &'a str,
        result: Option<ParserResult<'a, DescriptionComponent>>,
    ) -> bool {
        match result {
            Some(pr) => {
                &&& input@.len() > 0
                &&& !tag_at(input@, 0)
                &&& pr.value@ == ComponentView::Text(input@.subrange(0, text_end(input@, 1)))
                &&& pr.remaining@ == input@.skip(text_end(input@, 1))
            },
            None => input@.len() == 0 || tag_at(input@, 0),
        }
    }

    fn parse<'a>(input: &'a str) -> (result: Option<ParserResult<'a, DescriptionComponent>>) {
        let n = input.unicode_len();
        if n == 0 {
            return None;
        }
        if check_tag_at(input, 0, n) {
            return None;
        }
        let e = scan_text_end(input, 1, n);
        let text = String::from_str(input.substring_char(0, e));
        Some(
            ParserResult {
                value: DescriptionComponent::Text(text),
                remaining: input.substring_char(e, n),
            },
        )
    }
}

/// One step of the description parser: tries project, context, key:value and
/// plain text, in that fixed priority order, anchored at the start of the
/// input. It fails only on empty input.
pub struct DescriptionComponentParser {}

impl Parser for DescriptionComponentParser {
    type Value = DescriptionComponent;

    /// The result is exactly what `component_step` says of the input's
    /// characters: no match only on empty input, otherwise the first match
    /// in priority order and the rest of the input.
    open spec fn parse_ensures<'a>(
        input: &'a str,
        result: Option<ParserResult<'a, DescriptionComponent>>,
    ) -> bool {
        match result {
            Some(pr) => {
                &&& component_step(input@) is Some
                &&& pr.value@ == component_step(input@)->Some_0.0
                &&& pr.remaining@ == input@.skip(component_step(input@)->Some_0.1)
            },
            None => input@.len() == 0,
        }
    }

    fn parse<'a>(input: &'a str) -> (result: Option<ParserResult<'a, DescriptionComponent>>) {
        if let Some(pr) = ProjectParser::parse(input) {
            return Some(pr);
        }
        if let Some(pr) = ContextParser::parse(input) {
            return Some(pr);
        }
        if let Some(pr) = KeyValueParser::parse(input) {
            return Some(pr);
        }
        NormalTextParser::parse(input)
    }
}

/// Parses a whole description into its ordered component sequence. It never
/// fails, and it consumes the whole input: concatenating the components'
/// texts in order reproduces the input exactly.
pub struct DescriptionComponentsParser {}

impl Parser for DescriptionComponentsParser {
    type Value = DescriptionComponents;

    /// Always a match: the full component sequence of the input, with
    /// nothing left over.
    open spec fn parse_ensures<'a>(
        input: &'a str,
        result: Option<ParserResult<'a, DescriptionComponents>>,
    ) -> bool {
        match result {
            Some(pr) => {
                &&& pr.value.deep_view() == parse_components(input@)
                &&& pr.remaining@.len() == 0
            },
            None => false,
        }
    }

    fn parse<'a>(input: &'a str) -> (result: Option<ParserResult<'a, DescriptionComponents>>) {
        let mut components: DescriptionComponents = Vec::new();
        let mut remaining: &str = input;
        proof {
            assert(components.deep_view() =~= Seq::<ComponentView>::empty());
            assert(components.deep_view() + parse_components(remaining@) =~= parse_components(
                input@,
            ));
        }
        while !remaining.is_empty()
            invariant
                components.deep_view() + parse_components(remaining@) == parse_components(input@),
            decreases remaining@.len(),
        {
            let ghost prev_components = components.deep_view();
            let ghost prev = remaining@;
            let pr = DescriptionComponentParser::parse(remaining).unwrap();
            proof {
                lemma_component_step(prev);
            }
            components.push(pr.value);
            remaining = pr.remaining;
            proof {
                let c = component_step(prev)->Some_0.0;
                let e = component_step(prev)->Some_0.1;
                assert(components.deep_view() =~= prev_components.push(c));
                assert(parse_components(prev) == seq![c] + parse_components(prev.skip(e)));
                assert(prev_components.push(c) + parse_components(remaining@)
                    =~= prev_components + (seq![c] + parse_components(prev.skip(e))));
            }
        }
        proof {
            assert(parse_components(remaining@) =~= Seq::<ComponentView>::empty());
            assert(components.deep_view() + parse_components(remaining@) =~= components.deep_view());
        }
        Some(ParserResult { value: components, remaining })
    }
}

/// Splits a description into its ordered component sequence.
pub trait ComponentExtractor: Sized {
    /// What `extract_components` promises of its result.
    spec fn extract_ensures(self, result: Vec<DescriptionComponent>) -> bool;

    fn extract_components(self) -> (result: Vec<DescriptionComponent>)
        ensures
            self.extract_ensures(result),
    ;
}

impl<'a> ComponentExtractor for &'a str {
    /// The result is the full component sequence of the string.
    open spec fn extract_ensures(self, result: Vec<DescriptionComponent>) -> bool {
        result.deep_view() == parse_components(self@)
    }

    fn extract_components(self) -> (result: Vec<DescriptionComponent>) {
        match DescriptionComponentsParser::parse(self) {
            Some(pr) => pr.value,
            None => Vec::new(),
        }
    }
}

impl DescriptionComponent {
    /// Writes the component as it stands in the description: text as itself,
    /// `+` before a project name, `@` before a context name, and a colon
    /// between key and value.
    pub fn to_string(&self) -> (r: String)
        ensures
            r@ == component_chars(self@),
    {
        match self {
            DescriptionComponent::Text(t) => t.clone(),
            DescriptionComponent::Project(p) => {
                proof {
                    reveal_strlit("+");
                }
                let mut r = String::from_str("+");
                r.append(p.as_str());
                proof {
                    assert(r@ =~= component_chars(self@));
                }
                r
            },
            DescriptionComponent::Context(c) => {
                proof {
                    reveal_strlit("@");
                }
                let mut r = String::from_str("@");
                r.append(c.as_str());
                proof {
                    assert(r@ =~= component_chars(self@));
                }
                r
            },
            DescriptionComponent::KeyValue(k, v) => {
                proof {
                    reveal_strlit(":");
                }
                let mut r = k.clone();
                r.append(":");
                r.append(v.as_str());
                proof {
                    assert(r@ =~= component_chars(self@));
                }
                r
            },
        }
    }
}

/// Appending one component to a sequence appends its characters to the
/// sequence's text.
proof fn lemma_components_chars_push(cs: Seq<ComponentView>, c: ComponentView)
    ensures
        components_chars(cs.push(c)) == components_chars(cs) + component_chars(c),
    decreases cs.len(),
{
    if cs.len() == 0 {
        reveal_with_fuel(components_chars, 2);
        assert(cs.push(c).drop_first() =~= Seq::<ComponentView>::empty());
        assert(components_chars(cs.push(c)) =~= components_chars(cs) + component_chars(c));
    } else {
        lemma_components_chars_push(cs.drop_first(), c);
        assert(cs.push(c).drop_first() =~= cs.drop_first().push(c));
        assert(components_chars(cs.push(c)) =~= components_chars(cs) + component_chars(c));
    }
}

/// Writes a component sequence back to the description it stands for: each
/// component's text, concatenated in order.
pub fn description_components_to_string(components: &Vec<DescriptionComponent>) -> (r: String)
    ensures
        r@ == components_chars(components.deep_view()),
{
    let mut r = String::new();
    let mut idx: usize = 0;
    proof {
        assert(components.deep_view().take(0) =~= Seq::<ComponentView>::empty());
    }
    while idx < components.len()
        invariant
            idx <= components.len(),
            r@ == components_chars(components.deep_view().take(idx as int)),
        decreases components.len() - idx,
    {
        let piece = components[idx].to_string();
        r.append(piece.as_str());
        proof {
            let dv = components.deep_view();
            lemma_components_chars_push(dv.take(idx as int), dv[idx as int]);
            assert(dv.take(idx as int).push(dv[idx as int]) =~= dv.take(idx as int + 1));
        }
        idx = idx + 1;
    }
    proof {
        assert(components.deep_view().take(components@.len() as int) =~= components.deep_view());
    }
    r
}

} // verus!
