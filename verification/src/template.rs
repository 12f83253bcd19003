//! The template resolver and its two render strategies' settings: dispatch on
//! a page name's suffix and an optional per-page template table, the parsed
//! card groups of a json page, and the prose class string a style table
//! builds.

use vstd::prelude::*;

verus! {

use vstd::string::StringExecFns;

use crate::config::ConfigTable;
use crate::config::ConfigValue;
use crate::config::table_bool_or_false;
use crate::config::table_get;
use crate::config::table_str;
use crate::strings::first_token;
use crate::strings::first_token_exec;
use crate::strings::str_eq;
use crate::strings::suffix_exec;
use crate::strings::suffix_of;

/// One card of a json page, as the spec level sees it: title, url, content,
/// footnote.
pub type CardV = (Seq<char>, Seq<char>, Seq<char>, Seq<char>);

/// One card as parsed: its string fields, keyed by field name.
pub type RawCardV = Seq<(Seq<char>, Seq<char>)>;

/// A parsed json page: group name to its cards' field tables.
pub type RawGroupsV = Seq<(Seq<char>, Seq<RawCardV>)>;

/// The card groups a json page renders: group name to its cards.
pub type GroupsV = Seq<(Seq<char>, Seq<CardV>)>;

/// One renderable card: all fields plain strings.
#[derive(Debug, Clone)]
pub struct CardInfo {
    pub title: String,
    pub url: String,
    pub content: String,
    pub footnote: String,
}

impl View for CardInfo {
    type V = CardV;

    open spec fn view(&self) -> CardV {
        (self.title@, self.url@, self.content@, self.footnote@)
    }
}

impl DeepView for CardInfo {
    type V = CardV;

    open spec fn deep_view(&self) -> CardV {
        self.view()
    }
}

/// What parsing a json page as card groups yields: group name to an array of
/// cards, each card the string fields of one JSON object keyed by field name,
/// groups sorted by name and fields sorted by key; or the parse failure's
/// message. A body whose shape is not an object of arrays of string-to-string
/// objects is a failure.
pub uninterp spec fn card_json_of(s: Seq<char>) -> Result<RawGroupsV, Seq<char>>;

/// Relies on `serde_json::from_str::<BTreeMap<String, Vec<BTreeMap<String,
/// String>>>>`: parses a JSON object of group name to array of string-valued
/// objects; iteration of the maps is sorted by key, so the result is a
/// function of the body alone. The error arm carries the parse error's
/// message.
#[verifier::external_body]
fn parse_card_json(content: &str) -> (r: Result<Vec<(String, Vec<Vec<(String, String)>>)>, String>)
    ensures
        match card_json_of(content@) {
            Ok(groups) => r matches Ok(v) && v.deep_view() == groups,
            Err(m) => r matches Err(e) && e@ == m,
        },
{
    let parsed: std::collections::BTreeMap<
        String,
        Vec<std::collections::BTreeMap<String, String>>,
    > = match serde_json::from_str(content) {
        Ok(p) => p,
        Err(e) => return Err(e.to_string()),
    };
    Ok(parsed.into_iter().map(
        |(group, cards)| (group, cards.into_iter().map(|c| c.into_iter().collect()).collect()),
    ).collect())
}

/// The value of the first field named `key` in a parsed card.
pub open spec fn pairs_get(pairs: RawCardV, key: Seq<char>) -> Option<Seq<char>>
    decreases pairs.len(),
{
    if pairs.len() == 0 {
        None
    } else if pairs[0].0 == key {
        Some(pairs[0].1)
    } else {
        pairs_get(pairs.drop_first(), key)
    }
}

/// The card a parsed field table denotes, when the four required fields are
/// all present; fields beyond the required four are ignored.
pub open spec fn card_of_fields(pairs: RawCardV) -> Option<CardV> {
    match (pairs_get(pairs, "title"@), pairs_get(pairs, "url"@), pairs_get(pairs, "content"@),
    pairs_get(pairs, "footnote"@)) {
        (Some(t), Some(u), Some(c), Some(f)) => Some((t, u, c, f)),
        _ => None,
    }
}

/// The cards of one group, in parsed order; `None` when any card is missing a
/// required field.
pub open spec fn group_cards(cards: Seq<RawCardV>) -> Option<Seq<CardV>>
    decreases cards.len(),
{
    if cards.len() == 0 {
        Some(Seq::empty())
    } else {
        match (group_cards(cards.drop_last()), card_of_fields(cards.last())) {
            (Some(rest), Some(c)) => Some(rest.push(c)),
            _ => None,
        }
    }
}

/// Every group's cards, in parsed group order; `None` when any card anywhere
/// is missing a required field.
pub open spec fn groups_of_raw(raw: RawGroupsV) -> Option<GroupsV>
    decreases raw.len(),
{
    if raw.len() == 0 {
        Some(Seq::empty())
    } else {
        match (groups_of_raw(raw.drop_last()), group_cards(raw.last().1)) {
            (Some(rest), Some(cards)) => Some(rest.push((raw.last().0, cards))),
            _ => None,
        }
    }
}

/// The message a structurally valid JSON body earns when a card lacks one of
/// the four required string fields.
pub open spec fn missing_field_msg() -> Seq<char> {
    "card is missing a required string field"@
}

/// What a json page renders: its card groups, or the message of the failure
/// that the rendering layer surfaces to the user.
pub open spec fn card_groups_spec(s: Seq<char>) -> Result<GroupsV, Seq<char>> {
    match card_json_of(s) {
        Ok(raw) => match groups_of_raw(raw) {
            Some(g) => Ok(g),
            None => Err(missing_field_msg()),
        },
        Err(m) => Err(m),
    }
}

proof fn lemma_group_cards_none(cards: Seq<RawCardV>, k: int)
    requires
        0 <= k <= cards.len(),
        group_cards(cards.take(k)) is None,
    ensures
        group_cards(cards) is None,
    decreases cards.len() - k,
{
    if k < cards.len() {
        assert(cards.take(k + 1).drop_last() =~= cards.take(k));
        lemma_group_cards_none(cards, k + 1);
    } else {
        assert(cards.take(k) =~= cards);
    }
}

proof fn lemma_groups_of_raw_none(raw: RawGroupsV, k: int)
    requires
        0 <= k <= raw.len(),
        groups_of_raw(raw.take(k)) is None,
    ensures
        groups_of_raw(raw) is None,
    decreases raw.len() - k,
{
    if k < raw.len() {
        assert(raw.take(k + 1).drop_last() =~= raw.take(k));
        lemma_groups_of_raw_none(raw, k + 1);
    } else {
        assert(raw.take(k) =~= raw);
    }
}

/// The value of the first field named `key` of a parsed card, if any.
fn field_of<'a>(pairs: &'a Vec<(String, String)>, key: &str) -> (r: Option<&'a String>)
    ensures
        match r {
            Some(v) => pairs_get(pairs.deep_view(), key@) == Some(v@),
            None => pairs_get(pairs.deep_view(), key@) is None,
        },
{
    let ghost dv = pairs.deep_view();
    let n = pairs.len();
    proof {
        assert(dv.subrange(0, n as int) =~= dv);
    }
    let mut i: usize = 0;
    while i < n
        invariant
            i <= n,
            n == pairs@.len(),
            dv == pairs.deep_view(),
            pairs_get(dv, key@) == pairs_get(dv.subrange(i as int, n as int), key@),
        decreases n - i,
    {
        proof {
            assert(dv[i as int] == (pairs@[i as int].0@, pairs@[i as int].1@));
        }
        if str_eq(pairs[i].0.as_str(), key) {
            return Some(&pairs[i].1);
        }
        proof {
            let rest = dv.subrange(i as int, n as int);
            assert(rest.drop_first() =~= dv.subrange(i + 1, n as int));
        }
        i += 1;
    }
    None
}

/// The card a parsed field table denotes, when its four required fields are
/// present.
fn card_from_pairs(pairs: &Vec<(String, String)>) -> (r: Option<CardInfo>)
    ensures
        match r {
            Some(c) => card_of_fields(pairs.deep_view()) == Some(c@),
            None => card_of_fields(pairs.deep_view()) is None,
        },
{
    let title = field_of(pairs, "title");
    let url = field_of(pairs, "url");
    let content = field_of(pairs, "content");
    let footnote = field_of(pairs, "footnote");
    match (title, url, content, footnote) {
        (Some(t), Some(u), Some(c), Some(f)) => Some(
            CardInfo {
                title: t.clone(),
                url: u.clone(),
                content: c.clone(),
                footnote: f.clone(),
            },
        ),
        _ => None,
    }
}

/// Parses a json page into its card groups: group name to cards, groups
/// sorted by name, cards in their parsed order. A failure — malformed JSON or
/// a card without its four string fields — is an `Err` carrying the message
/// the rendering layer shows; it is surfaced, never dropped.
pub fn parse_card_groups(content: &str) -> (r: Result<Vec<(String, Vec<CardInfo>)>, String>)
    ensures
        match r {
            Ok(groups) => card_groups_spec(content@) == Ok::<GroupsV, Seq<char>>(
                groups.deep_view(),
            ),
            Err(m) => card_groups_spec(content@) == Err::<GroupsV, Seq<char>>(m@),
        },
{
    let raw = match parse_card_json(content) {
        Ok(raw) => raw,
        Err(m) => {
            return Err(m);
        },
    };
    let ghost rv = raw.deep_view();
    let mut groups: Vec<(String, Vec<CardInfo>)> = Vec::new();
    let gn = raw.len();
    let mut gi: usize = 0;
    proof {
        assert(groups.deep_view() =~= Seq::<(Seq<char>, Seq<CardV>)>::empty());
        assert(rv.take(0) =~= Seq::<(Seq<char>, Seq<RawCardV>)>::empty());
    }
    while gi < gn
        invariant
            gi <= gn,
            gn == raw@.len(),
            rv == raw.deep_view(),
            card_json_of(content@) == Ok::<RawGroupsV, Seq<char>>(rv),
            groups_of_raw(rv.take(gi as int)) == Some(groups.deep_view()),
        decreases gn - gi,
    {
        proof {
            assert(rv[gi as int] == (raw@[gi as int].0@, raw@[gi as int].1.deep_view()));
            assert(rv.take(gi + 1).drop_last() =~= rv.take(gi as int));
            assert(rv.take(gi + 1).last() == rv[gi as int]);
        }
        let raw_cards = &raw[gi].1;
        let ghost cv = raw_cards.deep_view();
        let mut cards: Vec<CardInfo> = Vec::new();
        let cn = raw_cards.len();
        let mut ci: usize = 0;
        proof {
            assert(cards.deep_view() =~= Seq::<CardV>::empty());
            assert(cv.take(0) =~= Seq::<RawCardV>::empty());
        }
        while ci < cn
            invariant
                ci <= cn,
                cn == raw_cards@.len(),
                cv == raw_cards.deep_view(),
                rv == raw.deep_view(),
                gi < rv.len(),
                cv == rv[gi as int].1,
                card_json_of(content@) == Ok::<RawGroupsV, Seq<char>>(rv),
                group_cards(cv.take(ci as int)) == Some(cards.deep_view()),
            decreases cn - ci,
        {
            proof {
                assert(cv[ci as int] == raw_cards@[ci as int].deep_view());
                assert(cv.take(ci + 1).drop_last() =~= cv.take(ci as int));
                assert(cv.take(ci + 1).last() == cv[ci as int]);
            }
            match card_from_pairs(&raw_cards[ci]) {
                Some(card) => {
                    cards.push(card);
                    proof {
                        assert(cards.deep_view() =~= group_cards(
                            cv.take(ci + 1),
                        )->Some_0);
                    }
                },
                None => {
                    proof {
                        lemma_group_cards_none(cv, ci + 1);
                        lemma_groups_of_raw_none(rv, gi + 1);
                    }
                    let msg = String::from_str("card is missing a required string field");
                    return Err(msg);
                },
            }
            ci += 1;
        }
        proof {
            assert(cv.take(cn as int) =~= cv);
        }
        groups.push((raw[gi].0.clone(), cards));
        proof {
            assert(groups.deep_view() =~= groups_of_raw(rv.take(gi + 1))->Some_0);
        }
        gi += 1;
    }
    proof {
        assert(rv.take(gn as int) =~= rv);
    }
    Ok(groups)
}

/// The fixed base class every prose class string starts from, and the class of
/// a markdown page whose template has no style table.
pub open spec fn default_prose_class() -> Seq<char> {
    "prose prose-sm sm:prose-base dark:prose-invert"@
}

/// How many style slots the catalog holds.
pub open spec fn slot_count() -> int {
    26
}

/// The style slot catalog, in its declared order; the order fixes the output
/// token order.
pub open spec fn slot_name(i: int) -> Seq<char> {
    if i == 0 { "headings"@ }
    else if i == 1 { "lead"@ }
    else if i == 2 { "h1"@ }
    else if i == 3 { "h2"@ }
    else if i == 4 { "h3"@ }
    else if i == 5 { "h4"@ }
    else if i == 6 { "p"@ }
    else if i == 7 { "a"@ }
    else if i == 8 { "blockquote"@ }
    else if i == 9 { "figure"@ }
    else if i == 10 { "figcaption"@ }
    else if i == 11 { "strong"@ }
    else if i == 12 { "em"@ }
    else if i == 13 { "code"@ }
    else if i == 14 { "pre"@ }
    else if i == 15 { "ol"@ }
    else if i == 16 { "ul"@ }
    else if i == 17 { "li"@ }
    else if i == 18 { "table"@ }
    else if i == 19 { "thead"@ }
    else if i == 20 { "tr"@ }
    else if i == 21 { "th"@ }
    else if i == 22 { "td"@ }
    else if i == 23 { "img"@ }
    else if i == 24 { "video"@ }
    else if i == 25 { "hr"@ }
    else { Seq::empty() }
}

fn slot_at(i: usize) -> (r: &'static str)
    requires
        i < slot_count(),
    ensures
        r@ == slot_name(i as int),
{
    if i == 0 { "headings" }
    else if i == 1 { "lead" }
    else if i == 2 { "h1" }
    else if i == 3 { "h2" }
    else if i == 4 { "h3" }
    else if i == 5 { "h4" }
    else if i == 6 { "p" }
    else if i == 7 { "a" }
    else if i == 8 { "blockquote" }
    else if i == 9 { "figure" }
    else if i == 10 { "figcaption" }
    else if i == 11 { "strong" }
    else if i == 12 { "em" }
    else if i == 13 { "code" }
    else if i == 14 { "pre" }
    else if i == 15 { "ol" }
    else if i == 16 { "ul" }
    else if i == 17 { "li" }
    else if i == 18 { "table" }
    else if i == 19 { "thead" }
    else if i == 20 { "tr" }
    else if i == 21 { "th" }
    else if i == 22 { "td" }
    else if i == 23 { "img" }
    else if i == 24 { "video" }
    else { "hr" }
}

/// What one slot adds to the class string: ` prose-{slot}:{first token}` when
/// the style table holds a non-empty string under the slot's name; nothing
/// when the value is the empty string, absent, or of another type. Only the
/// first space-separated token of a value is used; the rest is discarded.
pub open spec fn slot_class(entries: Seq<(String, ConfigValue)>, slot: Seq<char>) -> Seq<char> {
    match table_get(entries, slot) {
        Some(ConfigValue::Str(v)) => if v@.len() == 0 {
            Seq::empty()
        } else {
            " prose-"@ + slot + ":"@ + first_token(v@)
        },
        _ => Seq::empty(),
    }
}

/// What the first `n` slots of the catalog add, in catalog order.
pub open spec fn prose_fold(entries: Seq<(String, ConfigValue)>, n: int) -> Seq<char>
    decreases n,
{
    if n <= 0 {
        Seq::empty()
    } else {
        prose_fold(entries, n - 1) + slot_class(entries, slot_name(n - 1))
    }
}

/// The class string a style table builds: the fixed base, then each catalog
/// slot's contribution in declared order.
pub open spec fn prose_class_spec(entries: Seq<(String, ConfigValue)>) -> Seq<char> {
    default_prose_class() + prose_fold(entries, slot_count())
}

/// Law: the class builder is deterministic — results built from equal style
/// tables are byte-identical, so repeated calls agree.
pub proof fn lemma_prose_class_deterministic(
    a: Seq<(String, ConfigValue)>,
    b: Seq<(String, ConfigValue)>,
    r1: Seq<char>,
    r2: Seq<char>,
)
    requires
        a == b,
        r1 == prose_class_spec(a),
        r2 == prose_class_spec(b),
    ensures
        r1 == r2,
{
}

proof fn lemma_prose_fold_empty(entries: Seq<(String, ConfigValue)>, n: int)
    requires
        entries.len() == 0,
        0 <= n,
    ensures
        prose_fold(entries, n) == Seq::<char>::empty(),
    decreases n,
{
    if n > 0 {
        lemma_prose_fold_empty(entries, n - 1);
        assert(prose_fold(entries, n) =~= Seq::<char>::empty());
    }
}

/// Law: a style table with no entries contributes nothing — the class string
/// is exactly the framework default.
pub proof fn lemma_prose_class_default(entries: Seq<(String, ConfigValue)>)
    requires
        entries.len() == 0,
    ensures
        prose_class_spec(entries) == default_prose_class(),
{
    lemma_prose_fold_empty(entries, slot_count());
    assert(prose_class_spec(entries) =~= default_prose_class());
}

/// Builds the prose class string a style table asks for: the fixed base, then
/// ` prose-{slot}:{first token}` for every catalog slot the table holds a
/// non-empty string for, in catalog order. Tokens past the first of a value
/// are parsed and discarded; an empty value contributes nothing.
pub fn generate_prose_class(style: &ConfigTable) -> (r: String)
    ensures
        r@ == prose_class_spec(style.entries@),
{
    let mut res = String::from_str("prose prose-sm sm:prose-base dark:prose-invert");
    proof {
        assert(res@ =~= default_prose_class() + prose_fold(style.entries@, 0));
    }
    let mut i: usize = 0;
    while i < 26
        invariant
            i <= 26,
            res@ == default_prose_class() + prose_fold(style.entries@, i as int),
        decreases 26 - i,
    {
        let slot = slot_at(i);
        match style.get(slot) {
            Some(ConfigValue::Str(v)) => {
                if !v.as_str().is_empty() {
                    let token = first_token_exec(v.as_str());
                    res.append(" prose-");
                    res.append(slot);
                    res.append(":");
                    res.append(token);
                    proof {
                        assert(res@ =~= default_prose_class() + prose_fold(
                            style.entries@,
                            i + 1,
                        ));
                    }
                } else {
                    proof {
                        assert(res@ =~= default_prose_class() + prose_fold(
                            style.entries@,
                            i + 1,
                        ));
                    }
                }
            },
            _ => {
                proof {
                    assert(res@ =~= default_prose_class() + prose_fold(style.entries@, i + 1));
                }
            },
        }
        i += 1;
    }
    res
}

/// The class a markdown page renders with: built from the template's `style`
/// sub-table when it has one, the framework default otherwise.
pub open spec fn md_class_of(entries: Seq<(String, ConfigValue)>) -> Seq<char> {
    match table_get(entries, "style"@) {
        Some(ConfigValue::Table(st)) => prose_class_spec(st.entries@),
        _ => default_prose_class(),
    }
}

/// The render variants of a markdown page. The `using` directive picks one;
/// every value, the empty default included, picks `Center` today, so an
/// unrecognized value falls back to the default instead of failing.
pub enum MarkdownVariant {
    Center,
}

/// The render variants of a json page; every `using` value picks `Cards`.
pub enum CardVariant {
    Cards,
}

pub fn markdown_variant_of(using: &str) -> (r: MarkdownVariant)
    ensures
        r is Center,
{
    let _ = using;
    MarkdownVariant::Center
}

pub fn card_variant_of(using: &str) -> (r: CardVariant)
    ensures
        r is Cards,
{
    let _ = using;
    CardVariant::Cards
}

/// The `using` directive of a template table: its string value, or the empty
/// string when there is no table, the key is absent, or the value is of
/// another type.
pub fn template_using(template: Option<&ConfigTable>) -> (r: String)
    ensures
        r@ == match template {
            Some(t) => match table_str(t.entries@, "using"@) {
                Some(u) => u,
                None => Seq::<char>::empty(),
            },
            None => Seq::<char>::empty(),
        },
{
    match template {
        Some(t) => match t.get_str("using") {
            Some(u) => u.clone(),
            None => String::new(),
        },
        None => String::new(),
    }
}

/// What the rendering layer receives for one page: the variant to draw and
/// its settings. An unsupported suffix is the `NotFound` outcome, a valid
/// terminal rendering, not an error; a card parse failure is the
/// `ParseFailed` outcome, surfaced with its message.
pub enum RenderPlan {
    CenterMarkdown { markdown: String, class: String, hide_navbar: bool, hide_footer: bool },
    CardList { groups: Vec<(String, Vec<CardInfo>)> },
    ParseFailed { message: String },
    NotFound,
}

/// Resolves which template a page renders with, from its name's suffix (the
/// characters after the last dot) and its optional template table. An `md`
/// page renders centered markdown, carrying the page text for the markdown
/// collaborator, the class string, and the chrome toggles; a `json` page
/// renders its card groups or surfaces the parse failure; any other suffix,
/// a dotless name included, is the not-found outcome whatever the table says.
pub fn resolve_template(
    name: &str,
    content: &str,
    template: Option<&ConfigTable>,
) -> (r: RenderPlan)
    ensures
        suffix_of(name@) == "md"@ ==> (r matches RenderPlan::CenterMarkdown {
            markdown,
            class,
            hide_navbar,
            hide_footer,
        } && markdown@ == content@ && class@ == (match template {
            Some(t) => md_class_of(t.entries@),
            None => default_prose_class(),
        }) && hide_navbar == (match template {
            Some(t) => table_bool_or_false(t.entries@, "hide-navbar"@),
            None => false,
        }) && hide_footer == (match template {
            Some(t) => table_bool_or_false(t.entries@, "hide-footer"@),
            None => false,
        })),
        suffix_of(name@) == "json"@ ==> (match card_groups_spec(content@) {
            Ok(g) => r matches RenderPlan::CardList { groups } && groups.deep_view() == g,
            Err(m) => r matches RenderPlan::ParseFailed { message } && message@ == m,
        }),
        suffix_of(name@) != "md"@ && suffix_of(name@) != "json"@ ==> r is NotFound,
{
    proof {
        reveal_strlit("md");
        reveal_strlit("json");
    }
    let suffix = suffix_exec(name);
    let using = template_using(template);
    if str_eq(suffix, "md") {
        match markdown_variant_of(using.as_str()) {
            MarkdownVariant::Center => {
                let class = match template {
                    Some(t) => match t.get("style") {
                        Some(ConfigValue::Table(st)) => generate_prose_class(st),
                        _ => String::from_str("prose prose-sm sm:prose-base dark:prose-invert"),
                    },
                    None => String::from_str("prose prose-sm sm:prose-base dark:prose-invert"),
                };
                let hide_navbar = match template {
                    Some(t) => t.get_bool_or_false("hide-navbar"),
                    None => false,
                };
                let hide_footer = match template {
                    Some(t) => t.get_bool_or_false("hide-footer"),
                    None => false,
                };
                RenderPlan::CenterMarkdown {
                    markdown: String::from_str(content),
                    class,
                    hide_navbar,
                    hide_footer,
                }
            },
        }
    } else if str_eq(suffix, "json") {
        match card_variant_of(using.as_str()) {
            CardVariant::Cards => match parse_card_groups(content) {
                Ok(groups) => RenderPlan::CardList { groups },
                Err(message) => RenderPlan::ParseFailed { message },
            },
        }
    } else {
        RenderPlan::NotFound
    }
}

} // verus!
