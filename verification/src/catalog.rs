//! Message catalogs and the choice of a locale.
use crate::entries::{self, add_member, put_text, text_at};
use crate::json::{self, Json, JsonView};
use crate::json_text::{self, parse_json};
use crate::text::{
    self, cat3, chars_of, contains_text, head_before, replace_char, replace_token, same,
    strip_prefix, to_ascii_lower, trim,
};
use vstd::prelude::*;

verus! {

/// The messages of the chosen locale, and the English ones to fall back on.
#[derive(Debug)]
pub struct I18n {
    pub active: Vec<(String, String)>,
    pub english: Vec<(String, String)>,
}

#[verifier::ext_equal]
pub struct CatalogView {
    pub active: Seq<(Seq<char>, Seq<char>)>,
    pub english: Seq<(Seq<char>, Seq<char>)>,
}

impl View for I18n {
    type V = CatalogView;

    open spec fn view(&self) -> CatalogView {
        CatalogView {
            active: entries::text_entries(self.active@),
            english: entries::text_entries(self.english@),
        }
    }
}

/// The message under a key: the chosen locale's, else the English one, else the key.
pub open spec fn message(catalog: CatalogView, key: Seq<char>) -> Seq<char> {
    match entries::lookup(catalog.active, key) {
        Some(m) => m,
        None => match entries::lookup(catalog.english, key) {
            Some(m) => m,
            None => key,
        },
    }
}

/// A text in which each `{name}` is replaced by its value, argument by argument.
pub open spec fn filled(text: Seq<char>, args: Seq<(Seq<char>, Seq<char>)>) -> Seq<char>
    decreases args.len(),
{
    if args.len() == 0 {
        text
    } else {
        text::with_token_replaced(
            filled(text, args.drop_last()),
            "{"@ + args.last().0 + "}"@,
            args.last().1,
        )
    }
}

/// The message under a key with its arguments filled in.
pub open spec fn message_with(
    catalog: CatalogView,
    key: Seq<char>,
    args: Seq<(Seq<char>, Seq<char>)>,
) -> Seq<char> {
    filled(message(catalog, key), args)
}

/// The arguments of a message, viewed.
pub open spec fn args_view(args: Seq<(&str, String)>) -> Seq<(Seq<char>, Seq<char>)> {
    args.map_values(|a: (&str, String)| (a.0@, a.1@))
}

impl I18n {
    /// The catalogs for a run: the selected one where it could be read, else the English one.
    pub fn load(selected: Option<Vec<(String, String)>>, english: Option<Vec<(String, String)>>) -> (r:
        I18n)
        ensures
            r@ == loaded(opt_entries(selected), opt_entries(english)),
    {
        let english = match english {
            Some(catalog) => catalog,
            None => {
                let none: Vec<(String, String)> = Vec::new();
                assert(entries::text_entries(none@) =~= Seq::empty());
                none
            },
        };
        let active = match selected {
            Some(catalog) => catalog,
            None => copy_text_entries(&english),
        };
        I18n { active, english }
    }

    /// The message under a key.
    pub fn t(&self, key: &str) -> (r: String)
        ensures
            r@ == message(self@, key@),
    {
        match text_at(&self.active, key) {
            Some(m) => m,
            None => match text_at(&self.english, key) {
                Some(m) => m,
                None => key.to_owned(),
            },
        }
    }

    /// The message under a key with its arguments filled in.
    pub fn tf(&self, key: &str, args: &Vec<(&str, String)>) -> (r: String)
        ensures
            r@ == message_with(self@, key@, args_view(args@)),
    {
        let mut rendered = self.t(key);
        let ghost start = rendered@;
        let ghost views = args_view(args@);
        let mut i: usize = 0;
        assert(filled(start, views.take(0)) == start);
        while i < args.len()
            invariant
                i <= args@.len(),
                views == args_view(args@),
                rendered@ == filled(start, views.take(i as int)),
            decreases args.len() - i,
        {
            assert(views.take(i + 1).drop_last() == views.take(i as int));
            assert(views.take(i + 1).last() == (args@[i as int].0@, args@[i as int].1@));
            let token = cat3("{", args[i].0, "}");
            rendered = replace_token(rendered.as_str(), token.as_str(), args[i].1.as_str());
            i += 1;
        }
        assert(views.take(i as int) == views);
        rendered
    }
}

/// An optional catalog, viewed.
pub open spec fn opt_entries(catalog: Option<Vec<(String, String)>>) -> Option<
    Seq<(Seq<char>, Seq<char>)>,
> {
    match catalog {
        Some(c) => Some(entries::text_entries(c@)),
        None => None,
    }
}

/// The catalogs for a run.
pub open spec fn loaded(
    selected: Option<Seq<(Seq<char>, Seq<char>)>>,
    english: Option<Seq<(Seq<char>, Seq<char>)>>,
) -> CatalogView {
    let base = match english {
        Some(c) => c,
        None => Seq::empty(),
    };
    CatalogView {
        active: match selected {
            Some(c) => c,
            None => base,
        },
        english: base,
    }
}

/// The message under a key.
pub fn t(i18n: &I18n, key: &str) -> (r: String)
    ensures
        r@ == message(i18n@, key@),
{
    i18n.t(key)
}

/// The message under a key with its arguments filled in.
pub fn tf(i18n: &I18n, key: &str, args: &Vec<(&str, String)>) -> (r: String)
    ensures
        r@ == message_with(i18n@, key@, args_view(args@)),
{
    i18n.tf(key, args)
}

/// The message under a key with one argument filled in.
pub fn tf1(i18n: &I18n, key: &str, name: &str, value: &str) -> (r: String)
    ensures
        r@ == message_with(i18n@, key@, seq![(name@, value@)]),
{
    let args = vec![(name, value.to_owned())];
    assert(args_view(args@) =~= seq![(name@, value@)]);
    i18n.tf(key, &args)
}

/// The message under a key with two arguments filled in.
pub fn tf2(i18n: &I18n, key: &str, name: &str, value: &str, name2: &str, value2: &str) -> (r: String)
    ensures
        r@ == message_with(i18n@, key@, seq![(name@, value@), (name2@, value2@)]),
{
    let args = vec![(name, value.to_owned()), (name2, value2.to_owned())];
    assert(args_view(args@) =~= seq![(name@, value@), (name2@, value2@)]);
    i18n.tf(key, &args)
}

/// A copy of a list of text entries.
pub fn copy_text_entries(list: &Vec<(String, String)>) -> (r: Vec<(String, String)>)
    ensures
        entries::text_entries(r@) == entries::text_entries(list@),
{
    let mut out: Vec<(String, String)> = Vec::new();
    let mut i: usize = 0;
    while i < list.len()
        invariant
            i <= list@.len(),
            out@.len() == i,
            forall|k: int|
                0 <= k < i ==> (#[trigger] out@[k]).0@ == list@[k].0@ && out@[k].1@ == list@[k].1@,
        decreases list.len() - i,
    {
        let key = list[i].0.clone();
        let value = list[i].1.clone();
        out.push((key, value));
        i += 1;
    }
    assert(entries::text_entries(out@) =~= entries::text_entries(list@));
    out
}

/// The members of an object that are strings.
pub open spec fn string_members(members: Seq<(Seq<char>, JsonView)>) -> Seq<(Seq<char>, Seq<char>)>
    decreases members.len(),
{
    if members.len() == 0 {
        Seq::empty()
    } else {
        let before = string_members(members.drop_last());
        match json::string_of(members.last().1) {
            Some(s) => entries::put(before, members.last().0, s),
            None => before,
        }
    }
}

/// The members of an object that are strings.
pub fn collect_string_members(members: &Vec<(String, Json)>) -> (r: Vec<(String, String)>)
    ensures
        entries::text_entries(r@) == string_members(json::entries_view(members@)),
{
    let mut out: Vec<(String, String)> = Vec::new();
    let ghost views = json::entries_view(members@);
    let mut i: usize = 0;
    assert(entries::text_entries(out@) =~= string_members(views.take(0)));
    while i < members.len()
        invariant
            i <= members@.len(),
            views == json::entries_view(members@),
            entries::text_entries(out@) == string_members(views.take(i as int)),
        decreases members.len() - i,
    {
        assert(views.take(i + 1).drop_last() == views.take(i as int));
        assert(views.take(i + 1).last() == (members@[i as int].0@, members@[i as int].1@));
        if let Some(s) = members[i].1.as_str() {
            put_text(&mut out, members[i].0.clone(), s.to_owned());
        }
        i += 1;
    }
    assert(views.take(i as int) == views);
    out
}

/// The catalog that a text holds: nothing where it is no JSON object.
pub open spec fn catalog_of(text: Seq<char>) -> Option<Seq<(Seq<char>, Seq<char>)>> {
    match json_text::json_of_text(text) {
        Ok(value) => catalog_in(value),
        Err(_) => None,
    }
}

/// The catalog that a value holds: nothing where it is no object.
pub open spec fn catalog_in(value: JsonView) -> Option<Seq<(Seq<char>, Seq<char>)>> {
    match json::object_of(value) {
        Some(members) => Some(string_members(members)),
        None => None,
    }
}

/// The catalog that a value holds.
pub fn catalog_from_json(value: &Json) -> (r: Option<Vec<(String, String)>>)
    ensures
        opt_entries(r) == catalog_in(value@),
{
    match value.as_object() {
        Some(members) => Some(collect_string_members(members)),
        None => None,
    }
}

/// Reads the catalog that the text of a locale file holds.
pub fn load_catalog(text: &str) -> (r: Option<Vec<(String, String)>>)
    ensures
        opt_entries(r) == catalog_of(text@),
{
    match parse_json(text) {
        Ok(value) => catalog_from_json(&value),
        Err(_) => None,
    }
}

/// The locale that the arguments from `i` on ask for.
pub open spec fn locale_arg(args: Seq<Seq<char>>, i: int) -> Option<Seq<char>>
    decreases args.len() - i,
{
    if i < 0 || i >= args.len() {
        None
    } else if text::begins_with(args[i], "--locale="@) {
        Some(args[i].skip("--locale="@.len() as int))
    } else if args[i] == "--locale"@ && i + 1 < args.len() {
        Some(args[i + 1])
    } else {
        locale_arg(args, i + 1)
    }
}

/// The locale that command-line arguments ask for.
pub fn extract_locale_arg(raw_args: &Vec<String>) -> (r: Option<String>)
    ensures
        text::opt_text(r) == locale_arg(text::texts(raw_args@), 0),
{
    let ghost args = text::texts(raw_args@);
    let count = raw_args.len();
    let mut i: usize = 0;
    while i < count
        invariant
            i <= count == raw_args@.len(),
            args == text::texts(raw_args@),
            locale_arg(args, 0) == locale_arg(args, i as int),
        decreases count - i,
    {
        assert(args[i as int] == raw_args@[i as int]@);
        if let Some(value) = strip_prefix(raw_args[i].as_str(), "--locale=") {
            return Some(value);
        }
        if same(raw_args[i].as_str(), "--locale") && i + 1 < count {
            assert(args[i + 1] == raw_args@[i + 1]@);
            return Some(raw_args[i + 1].clone());
        }
        i += 1;
    }
    None
}

/// A list of texts in order and without repetition.
pub open spec fn ordered(list: Seq<Seq<char>>) -> Seq<Seq<char>>
    decreases list.len(),
{
    if list.len() == 0 {
        Seq::empty()
    } else {
        entries::with_member(ordered(list.drop_last()), list.last())
    }
}

/// Puts a list of texts in order, without repetition.
pub fn in_order(list: &Vec<String>) -> (r: Vec<String>)
    ensures
        text::texts(r@) == ordered(text::texts(list@)),
{
    let ghost views = text::texts(list@);
    let mut out: Vec<String> = Vec::new();
    let mut i: usize = 0;
    assert(text::texts(out@) =~= ordered(views.take(0)));
    while i < list.len()
        invariant
            i <= list@.len(),
            views == text::texts(list@),
            text::texts(out@) == ordered(views.take(i as int)),
        decreases list.len() - i,
    {
        assert(views.take(i + 1).drop_last() == views.take(i as int));
        assert(views.take(i + 1).last() == list@[i as int]@);
        add_member(&mut out, list[i].clone());
        i += 1;
    }
    assert(views.take(i as int) == views);
    out
}

/// A list put in order is strictly increasing and has the members of the list.
pub proof fn law_ordered(list: Seq<Seq<char>>)
    ensures
        entries::increasing(ordered(list)),
        forall|x: Seq<char>| #[trigger] ordered(list).contains(x) <==> list.contains(x),
    decreases list.len(),
{
    if list.len() > 0 {
        let before = ordered(list.drop_last());
        let x = list.last();
        law_ordered(list.drop_last());
        entries::lemma_with_member(before, x);
        assert forall|y: Seq<char>| #[trigger] ordered(list).contains(y) <==> list.contains(y) by {
            if list.drop_last().contains(y) {
                let k = choose|k: int| 0 <= k < list.drop_last().len() && list.drop_last()[k] == y;
                assert(list[k] == y);
            }
            if list.contains(y) && y != x {
                let k = choose|k: int| 0 <= k < list.len() && list[k] == y;
                assert(list.drop_last()[k] == y);
            }
            assert(list[list.len() - 1] == x);
        }
    }
}

/// The locales with a catalog.
pub open spec fn locale_tags() -> Seq<Seq<char>> {
    seq![
        "ar"@, "ar-AE"@, "ar-DZ"@, "ar-EG"@, "ar-IQ"@, "ar-MA"@, "ar-SA"@, "ar-SD"@, "ar-SY"@,
        "ar-TN"@, "ay"@, "bg"@, "bn"@, "cs"@, "da"@, "de"@, "el"@, "en"@, "en-GB"@, "es"@, "et"@,
        "fa"@, "fi"@, "fr"@, "gn"@, "gu"@, "hi"@, "hr"@, "ht"@, "hu"@, "id"@, "it"@, "ja"@, "km"@,
        "kn"@, "ko"@, "lo"@, "lt"@, "lv"@, "ml"@, "mr"@, "ms"@, "my"@, "nah"@, "ne"@, "nl"@, "no"@,
        "pa"@, "pl"@, "pt"@, "qu"@, "ro"@, "ru"@, "si"@, "sk"@, "sr"@, "sv"@, "ta"@, "te"@, "th"@,
        "tl"@, "tr"@, "uk"@, "ur"@, "vi"@, "zh"@,
    ]
}

/// The locales with a catalog, in order.
pub fn supported_locales() -> (r: Vec<String>)
    ensures
        text::texts(r@) == ordered(locale_tags()),
{
    let tags: Vec<&str> = vec![
        "ar", "ar-AE", "ar-DZ", "ar-EG", "ar-IQ", "ar-MA", "ar-SA", "ar-SD", "ar-SY", "ar-TN",
        "ay", "bg", "bn", "cs", "da", "de", "el", "en", "en-GB", "es", "et", "fa", "fi", "fr",
        "gn", "gu", "hi", "hr", "ht", "hu", "id", "it", "ja", "km", "kn", "ko", "lo", "lt", "lv",
        "ml", "mr", "ms", "my", "nah", "ne", "nl", "no", "pa", "pl", "pt", "qu", "ro", "ru", "si",
        "sk", "sr", "sv", "ta", "te", "th", "tl", "tr", "uk", "ur", "vi", "zh",
    ];
    let ghost views = tags@.map_values(|s: &str| s@);
    assert(views =~= locale_tags());
    let mut list: Vec<String> = Vec::new();
    let mut i: usize = 0;
    while i < tags.len()
        invariant
            i <= tags@.len(),
            views == tags@.map_values(|s: &str| s@),
            text::texts(list@) == views.take(i as int),
        decreases tags.len() - i,
    {
        let ghost before = text::texts(list@);
        list.push(tags[i].to_owned());
        assert(text::texts(list@) =~= before.push(views[i as int]));
        assert(views.take(i + 1) =~= before.push(views[i as int]));
        i += 1;
    }
    assert(views.take(i as int) =~= views);
    in_order(&list)
}

/// Whether a text consists of ASCII letters, digits and hyphens.
pub open spec fn is_tag(s: Seq<char>) -> bool {
    forall|i: int| 0 <= i < s.len() ==> text::ascii_alphanumeric(#[trigger] s[i]) || s[i] == '-'
}

/// The part of a text before the first `sep`, or all of it.
pub open spec fn before(s: Seq<char>, sep: char) -> Seq<char> {
    match text::cut(s, sep) {
        Some((head, _)) => head,
        None => s,
    }
}

/// A locale name without encoding and modifier, with hyphens for underscores:
/// nothing where the name is blank or is no tag then.
pub open spec fn normalized_locale(raw: Seq<char>) -> Option<Seq<char>> {
    let name = text::trimmed(raw);
    let tag = text::with_char_replaced(before(before(name, '.'), '@'), '_', '-');
    if name.len() == 0 || !is_tag(tag) {
        None
    } else {
        Some(tag)
    }
}

/// The part before the first `sep`, or all of it.
fn head_or_all(s: &str, sep: char) -> (r: String)
    ensures
        r@ == before(s@, sep),
{
    match head_before(s, sep) {
        Some(head) => head,
        None => s.to_owned(),
    }
}

/// A locale name as a tag.
pub fn normalize_locale(raw: &str) -> (r: Option<String>)
    ensures
        text::opt_text(r) == normalized_locale(raw@),
{
    let name = trim(raw);
    if name.as_str().is_empty() {
        return None;
    }
    let head = head_or_all(head_or_all(name.as_str(), '.').as_str(), '@');
    let tag = replace_char(head.as_str(), '_', '-');
    let chars = chars_of(tag.as_str());
    let mut i: usize = 0;
    while i < chars.len()
        invariant
            i <= chars@.len(),
            chars@ == tag@,
            forall|k: int|
                0 <= k < i ==> text::ascii_alphanumeric(#[trigger] chars@[k]) || chars@[k] == '-',
            name@.len() > 0,
            tag@ == text::with_char_replaced(before(before(name@, '.'), '@'), '_', '-'),
            name@ == text::trimmed(raw@),
        decreases chars.len() - i,
    {
        let c = chars[i];
        if !(('a' <= c && c <= 'z') || ('A' <= c && c <= 'Z') || ('0' <= c && c <= '9') || c == '-') {
            assert(!(text::ascii_alphanumeric(tag@[i as int]) || tag@[i as int] == '-'));
            return None;
        }
        i += 1;
    }
    Some(tag)
}

/// The language of a tag, in ASCII lower case.
pub open spec fn language(tag: Seq<char>) -> Seq<char> {
    before(tag, '-').map_values(|c: char| text::ascii_lower(c))
}

/// The language of a tag.
pub fn base_language(tag: &str) -> (r: String)
    ensures
        r@ == language(tag@),
{
    to_ascii_lower(head_or_all(tag, '-').as_str())
}

/// The supported locale for a candidate: its tag, else its language.
pub open spec fn resolved_locale(candidate: Seq<char>, supported: Seq<Seq<char>>) -> Option<
    Seq<char>,
> {
    match normalized_locale(candidate) {
        None => None,
        Some(tag) => if supported.contains(tag) {
            Some(tag)
        } else if supported.contains(language(tag)) {
            Some(language(tag))
        } else {
            None
        },
    }
}

/// The supported locale for a candidate.
pub fn resolve_locale(candidate: &str, supported: &Vec<String>) -> (r: Option<String>)
    ensures
        text::opt_text(r) == resolved_locale(candidate@, text::texts(supported@)),
{
    match normalize_locale(candidate) {
        None => None,
        Some(tag) => {
            if contains_text(supported, tag.as_str()) {
                return Some(tag);
            }
            let base = base_language(tag.as_str());
            if contains_text(supported, base.as_str()) {
                Some(base)
            } else {
                None
            }
        },
    }
}

/// The supported locale for a candidate that may be absent.
pub open spec fn resolved_opt(candidate: Option<Seq<char>>, supported: Seq<Seq<char>>) -> Option<
    Seq<char>,
> {
    match candidate {
        Some(c) => resolved_locale(c, supported),
        None => None,
    }
}

/// The locale to use: what the command line asks for, else what the environment
/// asks for, else what the system says, as far as it is supported, else English.
pub open spec fn selected_locale(
    cli: Option<Seq<char>>,
    env: Option<Seq<char>>,
    system: Option<Seq<char>>,
    supported: Seq<Seq<char>>,
) -> Seq<char> {
    match resolved_opt(cli, supported) {
        Some(found) => found,
        None => match resolved_opt(env, supported) {
            Some(found) => found,
            None => match resolved_opt(system, supported) {
                Some(found) => found,
                None => "en"@,
            },
        },
    }
}

/// The locale to use, given what the command line, the environment and the system ask for.
pub fn select_locale(
    cli_locale: &Option<String>,
    env_locale: &Option<String>,
    system_locale: &Option<String>,
    supported: &Vec<String>,
) -> (r: String)
    ensures
        r@ == selected_locale(
            text::opt_text(*cli_locale),
            text::opt_text(*env_locale),
            text::opt_text(*system_locale),
            text::texts(supported@),
        ),
{
    if let Some(cli) = cli_locale {
        if let Some(found) = resolve_locale(cli.as_str(), supported) {
            return found;
        }
    }
    if let Some(env) = env_locale {
        if let Some(found) = resolve_locale(env.as_str(), supported) {
            return found;
        }
    }
    if let Some(system) = system_locale {
        if let Some(found) = resolve_locale(system.as_str(), supported) {
            return found;
        }
    }
    "en".to_owned()
}

/// The first of a list of settings that is set and not blank, without the
/// white space around it.
pub open spec fn first_set(values: Seq<Option<Seq<char>>>, i: int) -> Option<Seq<char>>
    decreases values.len() - i,
{
    if i < 0 || i >= values.len() {
        None
    } else {
        match values[i] {
            Some(v) => if text::is_blank(v) {
                first_set(values, i + 1)
            } else {
                Some(text::trimmed(v))
            },
            None => first_set(values, i + 1),
        }
    }
}

/// The locale that environment settings ask for, given in order of precedence.
pub fn detect_env_locale(values: &Vec<Option<String>>) -> (r: Option<String>)
    ensures
        text::opt_text(r) == first_set(
            values@.map_values(|v: Option<String>| text::opt_text(v)),
            0,
        ),
{
    let ghost views = values@.map_values(|v: Option<String>| text::opt_text(v));
    let mut i: usize = 0;
    while i < values.len()
        invariant
            i <= values@.len(),
            views == values@.map_values(|v: Option<String>| text::opt_text(v)),
            first_set(views, 0) == first_set(views, i as int),
        decreases values.len() - i,
    {
        assert(views[i as int] == text::opt_text(values@[i as int]));
        if let Some(value) = &values[i] {
            let trimmed = trim(value.as_str());
            if !trimmed.as_str().is_empty() {
                return Some(trimmed);
            }
        }
        i += 1;
    }
    None
}

/// The locale that the system reports: none.
pub fn detect_system_locale() -> (r: Option<String>)
    ensures
        r is None,
{
    None
}

/// The locale for a run, given its arguments and the locale settings of the
/// environment in order of precedence.
pub fn init_from_cli_args(raw_args: &Vec<String>, env_values: &Vec<Option<String>>) -> (r: String)
    ensures
        r@ == selected_locale(
            locale_arg(text::texts(raw_args@), 0),
            first_set(env_values@.map_values(|v: Option<String>| text::opt_text(v)), 0),
            None,
            ordered(locale_tags()),
        ),
{
    let supported = supported_locales();
    let cli_locale = extract_locale_arg(raw_args);
    let env_locale = detect_env_locale(env_values);
    let system_locale = detect_system_locale();
    select_locale(&cli_locale, &env_locale, &system_locale, &supported)
}

/// The chosen locale is a supported one or English.
pub proof fn law_selected_is_supported(
    cli: Option<Seq<char>>,
    env: Option<Seq<char>>,
    system: Option<Seq<char>>,
    supported: Seq<Seq<char>>,
)
    ensures
        supported.contains(selected_locale(cli, env, system, supported)) || selected_locale(
            cli,
            env,
            system,
            supported,
        ) == "en"@,
{
}

/// A key without a message in either catalog stands for itself.
pub proof fn law_unknown_key_is_its_message(catalog: CatalogView, key: Seq<char>)
    requires
        entries::lookup(catalog.active, key) is None,
        entries::lookup(catalog.english, key) is None,
    ensures
        message(catalog, key) == key,
{
}

/// A message is the active catalog's, or else the English one's.
pub proof fn law_messages(catalog: CatalogView, key: Seq<char>)
    ensures
        entries::lookup(catalog.active, key) is Some ==> Some(message(catalog, key))
            == entries::lookup(catalog.active, key),
        entries::lookup(catalog.active, key) is None && entries::lookup(catalog.english, key)
            is Some ==> Some(message(catalog, key)) == entries::lookup(catalog.english, key),
{
}

/// A message is filled in one argument after the other, each at its name in braces.
pub proof fn law_filled(
    message: Seq<char>,
    args: Seq<(Seq<char>, Seq<char>)>,
    name: Seq<char>,
    value: Seq<char>,
)
    ensures
        filled(message, seq![]) == message,
        filled(message, args.push((name, value))) == text::with_token_replaced(
            filled(message, args),
            "{"@ + name + "}"@,
            value,
        ),
{
    assert(args.push((name, value)).drop_last() =~= args);
}

/// A catalog that was loaded for a locale is active beside the English one. Where
/// there is none for the locale, the English one is active.
pub proof fn law_loaded(
    selected: Option<Seq<(Seq<char>, Seq<char>)>>,
    english: Option<Seq<(Seq<char>, Seq<char>)>>,
    key: Seq<char>,
)
    ensures
        english is Some ==> loaded(selected, english).english == english->0,
        english is None ==> loaded(selected, english).english.len() == 0,
        selected is Some ==> loaded(selected, english).active == selected->0,
        selected is None ==> loaded(selected, english).active == loaded(
            selected,
            english,
        ).english,
{
}

/// The texts of an object's members stand under their keys; members that are no
/// texts are left out.
pub proof fn law_string_members(
    members: Seq<(Seq<char>, JsonView)>,
    key: Seq<char>,
    value: JsonView,
    other: Seq<char>,
)
    ensures
        ({
            let more = string_members(members.push((key, value)));
            &&& value matches JsonView::String(text) ==> entries::lookup(more, key) == Some(text)
                && (other != key ==> entries::lookup(more, other) == entries::lookup(
                string_members(members),
                other,
            ))
            &&& !(value is String) ==> more == string_members(members)
        }),
        string_members(seq![]).len() == 0,
{
    assert(members.push((key, value)).drop_last() =~= members);
    if value is String {
        let before = string_members(members);
        entries::law_put_then_lookup(before, key, value->String_0);
        if other != key {
            entries::law_put_keeps_others(before, key, value->String_0, other);
        }
    }
}

/// A catalog's text holds a JSON object; anything else holds no catalog.
pub proof fn law_catalog_texts(text: Seq<char>)
    ensures
        catalog_of(text) is Some <==> (json_text::json_of_text(text) matches Ok(value) && value
            is Object),
        json_text::json_of_text(text) matches Ok(JsonView::Object(members)) ==> catalog_of(text)
            == Some(string_members(members)),
{
}

/// The locale that the command line asks for is that of the first argument that
/// names one, behind an equals sign or as the next argument.
pub proof fn law_locale_arg(args: Seq<Seq<char>>, from: int, at: int, tag: Seq<char>)
    requires
        0 <= from <= at < args.len(),
        forall|k: int|
            from <= k < at ==> !text::begins_with(#[trigger] args[k], "--locale="@) && args[k]
                != "--locale"@,
    ensures
        args[at] == "--locale="@ + tag ==> locale_arg(args, from) == Some(tag),
        args[at] == "--locale"@ && at + 1 < args.len() ==> locale_arg(args, from) == Some(
            args[at + 1],
        ),
    decreases at - from,
{
    if from < at {
        assert(!text::begins_with(args[from], "--locale="@) && args[from] != "--locale"@);
        law_locale_arg(args, from + 1, at, tag);
    } else {
        let sign = "--locale="@;
        reveal_strlit("--locale=");
        reveal_strlit("--locale");
        assert("--locale="@.len() == 9 && "--locale"@.len() == 8);
        if args[at] == sign + tag {
            assert(args[at].take(sign.len() as int) =~= sign);
            assert(args[at].skip(sign.len() as int) =~= tag);
        }
    }
}

/// No locale is asked for where no argument names one.
pub proof fn law_no_locale_arg(args: Seq<Seq<char>>, from: int)
    requires
        0 <= from,
        forall|k: int|
            from <= k < args.len() ==> !text::begins_with(#[trigger] args[k], "--locale="@)
                && args[k] != "--locale"@,
    ensures
        locale_arg(args, from) is None,
    decreases args.len() - from,
{
    if from < args.len() {
        assert(!text::begins_with(args[from], "--locale="@) && args[from] != "--locale"@);
        law_no_locale_arg(args, from + 1);
    }
}

proof fn lemma_before(s: Seq<char>, sep: char)
    ensures
        !before(s, sep).contains(sep),
        before(s, sep).len() <= s.len(),
        before(s, sep) == s.take(before(s, sep).len() as int),
        before(s, sep).len() < s.len() ==> s[before(s, sep).len() as int] == sep,
{
    text::law_cut(s, sep);
    match text::cut(s, sep) {
        Some((head, tail)) => {
            assert(s.take(head.len() as int) =~= head);
        },
        None => {
            assert(s.take(s.len() as int) =~= s);
        },
    }
}

/// A locale's tag is what its name says before any dot or at sign, with hyphens in
/// place of underscores. It is a tag only where it is made of letters, digits and
/// hyphens.
pub proof fn law_normalized_locale(raw: Seq<char>)
    ensures
        text::is_blank(raw) ==> normalized_locale(raw) is None,
        normalized_locale(raw) matches Some(tag) ==> {
            let name = text::trimmed(raw);
            &&& tag.len() <= name.len()
            &&& forall|i: int|
                0 <= i < tag.len() ==> #[trigger] tag[i] == if name[i] == '_' {
                    '-'
                } else {
                    name[i]
                }
            &&& forall|i: int|
                0 <= i < tag.len() ==> (('a' <= #[trigger] tag[i] <= 'z') || ('A' <= tag[i] <= 'Z')
                    || ('0' <= tag[i] <= '9') || tag[i] == '-')
            &&& tag.len() < name.len() ==> name[tag.len() as int] == '.' || name[tag.len() as int]
                == '@'
        },
{
    let name = text::trimmed(raw);
    let first = before(name, '.');
    let second = before(first, '@');
    lemma_before(name, '.');
    lemma_before(first, '@');
    assert forall|i: int| 0 <= i < second.len() implies second[i] == name[i] by {
        assert(second[i] == first.take(second.len() as int)[i]);
        assert(first[i] == name.take(first.len() as int)[i]);
    }
    if second.len() < first.len() {
        assert(first[second.len() as int] == name.take(first.len() as int)[second.len() as int]);
    }
}

/// A name that is made of letters, digits, hyphens and underscores is a locale's, and
/// so is one with a part behind a dot.
pub proof fn law_plain_locales(name: Seq<char>)
    requires
        name.len() > 0,
        forall|i: int|
            0 <= i < name.len() ==> text::ascii_alphanumeric(#[trigger] name[i]) || name[i] == '-'
                || name[i] == '_',
    ensures
        normalized_locale(name) == Some(text::with_char_replaced(name, '_', '-')),
{
    assert forall|i: int| 0 <= i < name.len() implies !text::white_space(#[trigger] name[i]) by {
        assert(text::ascii_alphanumeric(name[i]) || name[i] == '-' || name[i] == '_');
    }
    assert(!text::white_space(name[0]) && !text::white_space(name.last()));
    assert(text::trim_start(name) == name);
    assert(text::trim_end(name) == name);
    lemma_before(name, '.');
    assert(before(name, '.') =~= name);
    lemma_before(name, '@');
    assert(before(name, '@') =~= name);
    let tag = text::with_char_replaced(name, '_', '-');
    assert forall|i: int| 0 <= i < tag.len() implies text::ascii_alphanumeric(#[trigger] tag[i])
        || tag[i] == '-' by {
        assert(text::ascii_alphanumeric(name[i]) || name[i] == '-' || name[i] == '_');
    }
}

/// A candidate stands for its own tag where that is supported, else for the language
/// of the tag where that is, and else for nothing.
pub proof fn law_resolved_locale(candidate: Seq<char>, supported: Seq<Seq<char>>)
    ensures
        resolved_locale(candidate, supported) matches Some(found) ==> supported.contains(found),
        normalized_locale(candidate) matches Some(tag) ==> {
            &&& supported.contains(tag) ==> resolved_locale(candidate, supported) == Some(tag)
            &&& !supported.contains(tag) && supported.contains(language(tag)) ==> resolved_locale(
                candidate,
                supported,
            ) == Some(language(tag))
            &&& !supported.contains(tag) && !supported.contains(language(tag)) ==> resolved_locale(
                candidate,
                supported,
            ) is None
        },
        normalized_locale(candidate) is None ==> resolved_locale(candidate, supported) is None,
{
}

/// The language of a tag is what stands before its first hyphen, in lower case.
pub proof fn law_language(tag: Seq<char>)
    ensures
        language(tag).len() <= tag.len(),
        language(tag).len() < tag.len() ==> tag[language(tag).len() as int] == '-',
        forall|i: int|
            0 <= i < language(tag).len() ==> tag[i] != '-' && #[trigger] language(tag)[i] == (
            if 'A' <= tag[i] <= 'Z' {
                ((tag[i] as u32) + 32) as char
            } else {
                tag[i]
            }),
{
    lemma_before(tag, '-');
    let head = before(tag, '-');
    assert forall|i: int| 0 <= i < head.len() implies head[i] == tag[i] && tag[i] != '-' by {
        assert(head[i] == tag.take(head.len() as int)[i]);
        assert(head.contains(head[i]));
    }
}

/// The locale of the command line comes before that of the environment, and that
/// before the system's. English is the last resort.
pub proof fn law_selected_locale(
    cli: Option<Seq<char>>,
    env: Option<Seq<char>>,
    system: Option<Seq<char>>,
    supported: Seq<Seq<char>>,
)
    ensures
        ({
            let selected = selected_locale(cli, env, system, supported);
            let asked = cli is Some && resolved_locale(cli->0, supported) is Some;
            let set = env is Some && resolved_locale(env->0, supported) is Some;
            let said = system is Some && resolved_locale(system->0, supported) is Some;
            &&& asked ==> Some(selected) == resolved_locale(cli->0, supported)
            &&& !asked && set ==> Some(selected) == resolved_locale(env->0, supported)
            &&& !asked && !set && said ==> Some(selected) == resolved_locale(system->0, supported)
            &&& !asked && !set && !said ==> selected == "en"@
        }),
{
}

/// The first setting that is set and not blank decides, without the white space
/// around it.
pub proof fn law_first_set(values: Seq<Option<Seq<char>>>, from: int, at: int)
    requires
        0 <= from <= at <= values.len(),
        forall|i: int|
            from <= i < at ==> (#[trigger] values[i] is None || text::is_blank(values[i]->0)),
        at < values.len() ==> values[at] is Some && !text::is_blank(values[at]->0),
    ensures
        first_set(values, from) == if at < values.len() {
            Some(text::trimmed(values[at]->0))
        } else {
            None
        },
    decreases at - from,
{
    if from < at {
        assert(values[from] is None || text::is_blank(values[from]->0));
        law_first_set(values, from + 1, at);
    }
}

} // verus!
