//! Paths, as the host writes them: with slashes alone, or by rules of its own.
use crate::text::{self, cat, cat3, chars_of, contains_text, join, same, split};
use vstd::prelude::*;

verus! {

/// The rules by which the host writes paths. `PathRules::host` alone makes them, so
/// that they are those of the host.
#[derive(Debug, Clone, Copy, PartialEq, Eq)]
pub struct PathRules {
    separator: char,
    drives: bool,
}

/// What tells the rules of hosts apart: the separator, and whether paths start at
/// drives.
pub struct RulesView {
    pub separator: char,
    pub drives: bool,
}

impl View for PathRules {
    type V = RulesView;

    closed spec fn view(&self) -> RulesView {
        RulesView { separator: self.separator, drives: self.drives }
    }
}

/// Whether paths are written with slashes alone.
pub open spec fn slashes(rules: RulesView) -> bool {
    rules.separator == '/' && !rules.drives
}

/// `std::path::MAIN_SEPARATOR`, and whether `std::path::Path::is_absolute` holds of
/// a path that starts at a drive. Both are up to the host.
#[verifier::external_body]
fn host_rules() -> (r: PathRules) {
    let drives = std::path::Path::new("c:/").is_absolute();
    PathRules { separator: std::path::MAIN_SEPARATOR, drives }
}

impl PathRules {
    /// The rules of the host.
    pub fn host() -> (r: PathRules) {
        host_rules()
    }

    /// Whether paths are written with slashes alone.
    pub fn has_slashes(&self) -> (r: bool)
        ensures
            r == slashes(self@),
    {
        self.separator == '/' && !self.drives
    }
}

/// Whether a path is absolute by the rules of a host.
pub uninterp spec fn host_absolute(rules: RulesView, path: Seq<char>) -> bool;

/// A path below a base by the rules of a host.
pub uninterp spec fn host_below(rules: RulesView, base: Seq<char>, path: Seq<char>) -> Seq<char>;

/// The parts of a path by the rules of a host.
pub uninterp spec fn host_parts(rules: RulesView, path: Seq<char>) -> Seq<Seq<char>>;

/// The path without its last part by the rules of a host.
pub uninterp spec fn host_parent(rules: RulesView, path: Seq<char>) -> Option<Seq<char>>;

/// The name that a path ends in by the rules of a host.
pub uninterp spec fn host_name(rules: RulesView, path: Seq<char>) -> Option<Seq<char>>;

/// Whether a path begins with another by the rules of a host.
pub uninterp spec fn host_within(rules: RulesView, path: Seq<char>, root: Seq<char>) -> bool;

/// How `Debug` shows a list of paths on a host.
pub uninterp spec fn debug_paths(rules: RulesView, list: Seq<Seq<char>>) -> Seq<char>;

/// `std::path::Path::is_absolute`, which goes by the rules of the host.
#[verifier::external_body]
fn ask_absolute(rules: &PathRules, path: &str) -> (r: bool)
    ensures
        r == host_absolute(rules@, path@),
{
    std::path::Path::new(path).is_absolute()
}

/// `std::path::Path::join`, which goes by the rules of the host.
#[verifier::external_body]
fn ask_below(rules: &PathRules, base: &str, path: &str) -> (r: String)
    ensures
        r@ == host_below(rules@, base@, path@),
{
    std::path::Path::new(base).join(path).to_string_lossy().to_string()
}

/// `std::path::Path::iter`, which goes by the rules of the host.
#[verifier::external_body]
fn ask_parts(rules: &PathRules, path: &str) -> (r: Vec<String>)
    ensures
        text::texts(r@) == host_parts(rules@, path@),
{
    std::path::Path::new(path).iter().map(|part| part.to_string_lossy().to_string()).collect()
}

/// `std::path::Path::parent`, which goes by the rules of the host.
#[verifier::external_body]
fn ask_parent(rules: &PathRules, path: &str) -> (r: Option<String>)
    ensures
        text::opt_text(r) == host_parent(rules@, path@),
{
    std::path::Path::new(path).parent().map(|parent| parent.to_string_lossy().to_string())
}

/// `std::path::Path::file_name`, which goes by the rules of the host.
#[verifier::external_body]
fn ask_name(rules: &PathRules, path: &str) -> (r: Option<String>)
    ensures
        text::opt_text(r) == host_name(rules@, path@),
{
    std::path::Path::new(path).file_name().map(|name| name.to_string_lossy().to_string())
}

/// `std::path::Path::starts_with`, which goes by the rules of the host.
#[verifier::external_body]
fn ask_within(rules: &PathRules, path: &str, root: &str) -> (r: bool)
    ensures
        r == host_within(rules@, path@, root@),
{
    std::path::Path::new(path).starts_with(root)
}

/// `Debug` on a vector of `std::path::PathBuf`, through `format!`.
#[verifier::external_body]
pub(crate) fn show_paths(rules: &PathRules, list: &Vec<String>) -> (r: String)
    ensures
        r@ == debug_paths(rules@, text::texts(list@)),
{
    format!("{:?}", list.iter().map(std::path::PathBuf::from).collect::<Vec<_>>())
}

/// Whether a path with slashes starts at the root.
pub open spec fn slash_absolute(path: Seq<char>) -> bool {
    path.len() > 0 && path[0] == '/'
}

/// A path with slashes below a base. An absolute path replaces the base.
pub open spec fn slash_below(base: Seq<char>, path: Seq<char>) -> Seq<char> {
    if slash_absolute(path) {
        path
    } else if base.len() == 0 || base.last() == '/' {
        base + path
    } else {
        base + "/"@ + path
    }
}

/// Whether the piece at `i` between the slashes of a path is a part of it: one
/// that is not empty and, but for the first, not a dot.
pub open spec fn counts(pieces: Seq<Seq<char>>, i: int) -> bool {
    pieces[i].len() > 0 && (i == 0 || pieces[i] != "."@)
}

/// The pieces from `i` on that are parts of the path.
pub open spec fn parts_from(pieces: Seq<Seq<char>>, i: int) -> Seq<Seq<char>>
    decreases pieces.len() - i,
{
    if i < 0 || i >= pieces.len() {
        Seq::empty()
    } else if counts(pieces, i) {
        seq![pieces[i]] + parts_from(pieces, i + 1)
    } else {
        parts_from(pieces, i + 1)
    }
}

/// The parts of a path with slashes, with the root as the first part of an absolute one.
pub open spec fn slash_parts(path: Seq<char>) -> Seq<Seq<char>> {
    let named = parts_from(text::pieces(path, '/'), 0);
    if slash_absolute(path) {
        seq!["/"@] + named
    } else {
        named
    }
}

/// The last piece before `n` that is a part of the path.
pub open spec fn last_part(pieces: Seq<Seq<char>>, n: int) -> Option<int>
    decreases n,
{
    if n <= 0 || n > pieces.len() {
        None
    } else if counts(pieces, n - 1) {
        Some(n - 1)
    } else {
        last_part(pieces, n - 1)
    }
}

/// A path with slashes without its last part: nothing where it has no part but the root.
pub open spec fn slash_parent(path: Seq<char>) -> Option<Seq<char>> {
    let pieces = text::pieces(path, '/');
    match last_part(pieces, pieces.len() as int) {
        None => None,
        Some(last) => Some(
            match last_part(pieces, last) {
                Some(before) => text::joined(pieces.take(before + 1), "/"@),
                None => if slash_absolute(path) {
                    "/"@
                } else {
                    Seq::empty()
                },
            },
        ),
    }
}

/// Whether the parts of one path with slashes begin with those of another.
pub open spec fn slash_within(path: Seq<char>, root: Seq<char>) -> bool {
    slash_parts(root).len() <= slash_parts(path).len() && slash_parts(path).take(slash_parts(root).len() as int) == slash_parts(
        root,
    )
}

/// Whether a path starts at the root.
fn has_root(path: &str) -> (r: bool)
    ensures
        r == slash_absolute(path@),
{
    let chars = chars_of(path);
    chars.len() > 0 && chars[0] == '/'
}

/// A path below a base.
fn join_slashes(base: &str, path: &str) -> (r: String)
    ensures
        r@ == slash_below(base@, path@),
{
    if has_root(path) {
        return path.to_owned();
    }
    let chars = chars_of(base);
    if chars.len() == 0 || chars[chars.len() - 1] == '/' {
        cat(base, path)
    } else {
        cat3(base, "/", path)
    }
}

fn piece_counts(pieces: &Vec<String>, i: usize) -> (r: bool)
    requires
        i < pieces@.len(),
    ensures
        r == counts(text::texts(pieces@), i as int),
{
    assert(text::texts(pieces@)[i as int] == pieces@[i as int]@);
    !pieces[i].as_str().is_empty() && (i == 0 || !same(pieces[i].as_str(), "."))
}

/// The parts of a path.
fn split_slashes(path: &str) -> (r: Vec<String>)
    ensures
        text::texts(r@) == slash_parts(path@),
{
    let pieces = split(path, '/');
    let ghost views = text::texts(pieces@);
    let mut out: Vec<String> = Vec::new();
    if has_root(path) {
        out.push("/".to_owned());
    }
    assert(slash_parts(path@) =~= text::texts(out@) + parts_from(views, 0));
    let mut i: usize = 0;
    while i < pieces.len()
        invariant
            i <= pieces@.len(),
            views == text::texts(pieces@),
            slash_parts(path@) == text::texts(out@) + parts_from(views, i as int),
        decreases pieces.len() - i,
    {
        if piece_counts(&pieces, i) {
            let ghost before = text::texts(out@);
            out.push(pieces[i].clone());
            assert(text::texts(out@) =~= before.push(views[i as int]));
            assert(before + (seq![views[i as int]] + parts_from(views, i + 1)) =~= text::texts(out@)
                + parts_from(views, i + 1));
        }
        i += 1;
    }
    assert(text::texts(out@) + Seq::<Seq<char>>::empty() =~= text::texts(out@));
    out
}

fn find_last_part(pieces: &Vec<String>, n: usize) -> (r: Option<usize>)
    requires
        n <= pieces@.len(),
    ensures
        match r {
            Some(i) => i < n && last_part(text::texts(pieces@), n as int) == Some(i as int),
            None => last_part(text::texts(pieces@), n as int) is None,
        },
    decreases n,
{
    if n == 0 {
        None
    } else if piece_counts(pieces, n - 1) {
        Some(n - 1)
    } else {
        find_last_part(pieces, n - 1)
    }
}

/// The path without its last part.
fn parent_slashes(path: &str) -> (r: Option<String>)
    ensures
        text::opt_text(r) == slash_parent(path@),
{
    let mut pieces = split(path, '/');
    let ghost views = text::texts(pieces@);
    let last = match find_last_part(&pieces, pieces.len()) {
        Some(last) => last,
        None => {
            return None;
        },
    };
    match find_last_part(&pieces, last) {
        Some(before) => {
            pieces.truncate(before + 1);
            assert(text::texts(pieces@) =~= views.take(before + 1));
            Some(join(&pieces, "/"))
        },
        None => if has_root(path) {
            Some("/".to_owned())
        } else {
            Some(String::new())
        },
    }
}

/// The name that a path with slashes ends in: none where it ends in the root or in dots.
pub open spec fn slash_name(path: Seq<char>) -> Option<Seq<char>> {
    let all = slash_parts(path);
    if all.len() == 0 || all.last() == "/"@ || all.last() == "."@ || all.last() == ".."@ {
        None
    } else {
        Some(all.last())
    }
}

/// The name that a path ends in.
fn name_slashes(path: &str) -> (r: Option<String>)
    ensures
        text::opt_text(r) == slash_name(path@),
{
    let all = split_slashes(path);
    assert(text::texts(all@).len() == all@.len());
    if all.len() == 0 {
        return None;
    }
    let last = &all[all.len() - 1];
    assert(text::texts(all@).last() == last@);
    if same(last.as_str(), "/") || same(last.as_str(), ".") || same(last.as_str(), "..") {
        return None;
    }
    Some(last.clone())
}

/// Whether the parts of one path begin with those of another.
fn within_slashes(path: &str, root: &str) -> (r: bool)
    ensures
        r == slash_within(path@, root@),
{
    let a = split_slashes(path);
    let b = split_slashes(root);
    let ghost x = text::texts(a@);
    let ghost y = text::texts(b@);
    if b.len() > a.len() {
        return false;
    }
    let mut i: usize = 0;
    while i < b.len()
        invariant
            i <= b@.len() <= a@.len(),
            x == text::texts(a@),
            x == slash_parts(path@),
            y == text::texts(b@),
            y == slash_parts(root@),
            forall|k: int| 0 <= k < i ==> x[k] == #[trigger] y[k],
        decreases b.len() - i,
    {
        assert(x[i as int] == a@[i as int]@ && y[i as int] == b@[i as int]@);
        if !same(a[i].as_str(), b[i].as_str()) {
            assert(x.take(y.len() as int)[i as int] != y[i as int]);
            return false;
        }
        i += 1;
    }
    assert(x.take(y.len() as int) =~= y);
    true
}

/// Whether a path is absolute.
pub open spec fn absolute(rules: RulesView, path: Seq<char>) -> bool {
    if slashes(rules) {
        slash_absolute(path)
    } else {
        host_absolute(rules, path)
    }
}

/// A path below a base.
pub open spec fn below(rules: RulesView, base: Seq<char>, path: Seq<char>) -> Seq<char> {
    if slashes(rules) {
        slash_below(base, path)
    } else {
        host_below(rules, base, path)
    }
}

/// The parts of a path.
pub open spec fn parts(rules: RulesView, path: Seq<char>) -> Seq<Seq<char>> {
    if slashes(rules) {
        slash_parts(path)
    } else {
        host_parts(rules, path)
    }
}

/// The path without its last part, where it has one.
pub open spec fn parent(rules: RulesView, path: Seq<char>) -> Option<Seq<char>> {
    if slashes(rules) {
        slash_parent(path)
    } else {
        host_parent(rules, path)
    }
}

/// The name that a path ends in, where it ends in one.
pub open spec fn last_name(rules: RulesView, path: Seq<char>) -> Option<Seq<char>> {
    if slashes(rules) {
        slash_name(path)
    } else {
        host_name(rules, path)
    }
}

/// Whether a path begins with another.
pub open spec fn within(rules: RulesView, path: Seq<char>, root: Seq<char>) -> bool {
    if slashes(rules) {
        slash_within(path, root)
    } else {
        host_within(rules, path, root)
    }
}

/// Whether a path is absolute.
pub fn is_absolute(rules: &PathRules, path: &str) -> (r: bool)
    ensures
        r == absolute(rules@, path@),
{
    if rules.has_slashes() {
        has_root(path)
    } else {
        ask_absolute(rules, path)
    }
}

/// A path below a base.
pub fn join_path(rules: &PathRules, base: &str, path: &str) -> (r: String)
    ensures
        r@ == below(rules@, base@, path@),
{
    if rules.has_slashes() {
        join_slashes(base, path)
    } else {
        ask_below(rules, base, path)
    }
}

/// The parts of a path.
pub fn path_parts(rules: &PathRules, path: &str) -> (r: Vec<String>)
    ensures
        text::texts(r@) == parts(rules@, path@),
{
    if rules.has_slashes() {
        split_slashes(path)
    } else {
        ask_parts(rules, path)
    }
}

/// The path without its last part.
pub fn parent_path(rules: &PathRules, path: &str) -> (r: Option<String>)
    ensures
        text::opt_text(r) == parent(rules@, path@),
{
    if rules.has_slashes() {
        parent_slashes(path)
    } else {
        ask_parent(rules, path)
    }
}

/// The name that a path ends in.
pub fn file_name(rules: &PathRules, path: &str) -> (r: Option<String>)
    ensures
        text::opt_text(r) == last_name(rules@, path@),
{
    if rules.has_slashes() {
        name_slashes(path)
    } else {
        ask_name(rules, path)
    }
}

/// Whether a path begins with another.
pub fn path_within(rules: &PathRules, path: &str, root: &str) -> (r: bool)
    ensures
        r == within(rules@, path@, root@),
{
    if rules.has_slashes() {
        within_slashes(path, root)
    } else {
        ask_within(rules, path, root)
    }
}

/// The path made of the first `n` parts, each below those before it.
pub open spec fn path_of(rules: RulesView, parts: Seq<Seq<char>>, n: int) -> Seq<char>
    decreases n,
{
    if n <= 0 || n > parts.len() {
        Seq::empty()
    } else {
        below(rules, path_of(rules, parts, n - 1), parts[n - 1])
    }
}

/// A list with one more text, unless the list holds it.
pub open spec fn with_new(list: Seq<Seq<char>>, path: Seq<char>) -> Seq<Seq<char>> {
    if list.contains(path) {
        list
    } else {
        list.push(path)
    }
}

/// Where a form asset may be, in the order in which it is looked for.
pub open spec fn form_paths(rules: RulesView, base: Seq<char>, path: Seq<char>) -> Seq<Seq<char>> {
    if absolute(rules, path) {
        seq![path]
    } else {
        with_new(
            with_new(seq![below(rules, base, path)], path),
            below(rules, "/assets"@, path),
        )
    }
}

fn push_new(list: &mut Vec<String>, path: String)
    ensures
        text::texts(final(list)@) == with_new(text::texts(old(list)@), path@),
{
    let ghost before = text::texts(list@);
    let ghost added = path@;
    if !contains_text(list, path.as_str()) {
        list.push(path);
        assert(text::texts(list@) =~= before.push(added));
    }
}

/// Where a form asset may be: below the asset base, as given, and below
/// `/assets`, or at its place where the path is absolute.
pub fn candidate_form_paths(rules: &PathRules, base: &str, path: &str) -> (r: Vec<String>)
    ensures
        text::texts(r@) == form_paths(rules@, base@, path@),
{
    let mut candidates: Vec<String> = Vec::new();
    if is_absolute(rules, path) {
        candidates.push(path.to_owned());
        assert(text::texts(candidates@) =~= seq![path@]);
        return candidates;
    }
    candidates.push(join_path(rules, base, path));
    assert(text::texts(candidates@) =~= seq![below(rules@, base@, path@)]);
    push_new(&mut candidates, path.to_owned());
    push_new(&mut candidates, join_path(rules, "/assets", path));
    candidates
}

/// The directory of the locale files that belong to a form asset: beside the
/// `forms` directory that the form is in, else beside the form.
pub open spec fn i18n_dir(rules: RulesView, form_path: Seq<char>) -> Seq<char> {
    let all = parts(rules, form_path);
    match crate::entries::position(all, "forms"@) {
        Some(at) => below(rules, path_of(rules, all, at), "i18n"@),
        None => below(
            rules,
            match parent(rules, form_path) {
                Some(dir) => dir,
                None => "."@,
            },
            "i18n"@,
        ),
    }
}

/// The directory of the locale files that belong to a form asset.
pub fn infer_i18n_dir_from_form_path(rules: &PathRules, form_asset_path: &str) -> (r: String)
    ensures
        r@ == i18n_dir(rules@, form_asset_path@),
{
    let all = path_parts(rules, form_asset_path);
    let ghost views = text::texts(all@);
    let mut prefix = String::new();
    let mut i: usize = 0;
    while i < all.len()
        invariant
            i <= all@.len(),
            views == text::texts(all@),
            views == parts(rules@, form_asset_path@),
            prefix@ == path_of(rules@, views, i as int),
            forall|k: int| 0 <= k < i ==> views[k] != "forms"@,
        decreases all.len() - i,
    {
        assert(views[i as int] == all@[i as int]@);
        if same(all[i].as_str(), "forms") {
            proof {
                crate::entries::lemma_position_is(views, "forms"@, i as int);
            }
            return join_path(rules, prefix.as_str(), "i18n");
        }
        prefix = join_path(rules, prefix.as_str(), all[i].as_str());
        i += 1;
    }
    proof {
        crate::entries::lemma_position(views, "forms"@);
    }
    match parent_path(rules, form_asset_path) {
        Some(dir) => join_path(rules, dir.as_str(), "i18n"),
        None => join_path(rules, ".", "i18n"),
    }
}

/// The file of a locale in a directory of locale files.
pub open spec fn locale_file(rules: RulesView, dir: Seq<char>, locale: Seq<char>) -> Seq<char> {
    below(rules, dir, locale + ".json"@)
}

/// The file of a locale in a directory of locale files.
pub fn locale_file_path(rules: &PathRules, dir: &str, locale: &str) -> (r: String)
    ensures
        r@ == locale_file(rules@, dir@, locale@),
{
    join_path(rules, dir, cat(locale, ".json").as_str())
}

/// The first place that is looked at is below the base, unless the path is absolute.
pub proof fn law_base_comes_first(rules: RulesView, base: Seq<char>, path: Seq<char>)
    ensures
        form_paths(rules, base, path).len() > 0,
        !absolute(rules, path) ==> form_paths(rules, base, path)[0] == below(rules, base, path),
        form_paths(rules, base, path).no_duplicates(),
{
    if !absolute(rules, path) {
        let one = seq![below(rules, base, path)];
        let two = with_new(one, path);
        assert(one.contains(one[0]));
        assert(two[0] == below(rules, base, path));
        if two.len() == 2 {
            assert(two[1] == path);
        }
        let three = with_new(two, below(rules, "/assets"@, path));
        assert forall|i: int, j: int| 0 <= i < j < three.len() implies three[i] != three[j] by {
            if j < two.len() {
                assert(three[j] == two[j]);
                assert(three[i] == one[0]);
            } else {
                assert(two.contains(two[i]));
            }
        }
    }
}

/// An absolute path is looked for at its place alone.
pub proof fn law_absolute_path_alone(rules: RulesView, base: Seq<char>, path: Seq<char>)
    requires
        absolute(rules, path),
    ensures
        form_paths(rules, base, path) == seq![path],
{
}

proof fn lemma_pieces_behind(s: Seq<char>, name: Seq<char>, sep: char)
    requires
        !name.contains(sep),
    ensures
        text::pieces(s + seq![sep] + name, sep) == text::pieces(s, sep).push(name),
    decreases name.len(),
{
    let whole = s + seq![sep] + name;
    if name.len() == 0 {
        assert(whole.drop_last() =~= s);
        assert(whole.last() == sep);
        assert(name =~= Seq::empty());
    } else {
        let front = name.drop_last();
        assert(whole.drop_last() =~= s + seq![sep] + front);
        assert(whole.last() == name.last());
        assert(name.contains(name[name.len() - 1]));
        assert forall|i: int| 0 <= i < front.len() implies front[i] != sep by {
            assert(name.contains(name[i]));
        }
        lemma_pieces_behind(s, front, sep);
        let rest = text::pieces(s + seq![sep] + front, sep);
        assert(rest.last() == front);
        assert(rest.drop_last() =~= text::pieces(s, sep));
        assert(front.push(name.last()) =~= name);
    }
}

proof fn lemma_one_piece(name: Seq<char>, sep: char)
    requires
        !name.contains(sep),
    ensures
        text::pieces(name, sep) == seq![name],
    decreases name.len(),
{
    if name.len() == 0 {
        assert(name =~= Seq::empty());
    } else {
        let front = name.drop_last();
        assert(name.contains(name[name.len() - 1]));
        assert forall|i: int| 0 <= i < front.len() implies front[i] != sep by {
            assert(name.contains(name[i]));
        }
        lemma_one_piece(front, sep);
        assert(front.push(name.last()) =~= name);
        assert(seq![front].drop_last().push(name) =~= seq![name]);
        assert(seq![front].last() == front);
    }
}

proof fn lemma_pieces_of_joined(names: Seq<Seq<char>>)
    requires
        names.len() > 0,
        forall|i: int| 0 <= i < names.len() ==> !(#[trigger] names[i]).contains('/'),
    ensures
        text::pieces(text::joined(names, "/"@), '/') == names,
    decreases names.len(),
{
    reveal_strlit("/");
    assert("/"@ =~= seq!['/']);
    if names.len() == 1 {
        lemma_one_piece(names[0], '/');
        assert(seq![names[0]] =~= names);
    } else {
        let front = names.drop_last();
        assert forall|i: int| 0 <= i < front.len() implies !(#[trigger] front[i]).contains('/') by {
            assert(front[i] == names[i]);
        }
        lemma_pieces_of_joined(front);
        assert(names.last() == names[names.len() - 1]);
        lemma_pieces_behind(text::joined(front, "/"@), names.last(), '/');
        assert(front.push(names.last()) =~= names);
    }
}

/// Whether texts are plain names: each is there, holds no slash and is no dot.
pub open spec fn plain_names(names: Seq<Seq<char>>) -> bool {
    forall|i: int|
        0 <= i < names.len() ==> (#[trigger] names[i]).len() > 0 && !names[i].contains('/')
            && names[i] != "."@
}

proof fn lemma_parts_from(names: Seq<Seq<char>>, i: int)
    requires
        plain_names(names),
        0 <= i <= names.len(),
    ensures
        parts_from(names, i) == names.skip(i),
    decreases names.len() - i,
{
    if i < names.len() {
        assert(names[i].len() > 0 && names[i] != "."@);
        lemma_parts_from(names, i + 1);
        assert(names.skip(i) =~= seq![names[i]] + names.skip(i + 1));
    } else {
        assert(names.skip(i) =~= Seq::empty());
    }
}

proof fn lemma_joined_begins(names: Seq<Seq<char>>)
    requires
        plain_names(names),
        names.len() > 0,
    ensures
        text::joined(names, "/"@).len() > 0,
        text::joined(names, "/"@)[0] == names[0][0],
        names[0][0] != '/',
        text::joined(names, "/"@).last() == names.last().last(),
        names.last().last() != '/',
    decreases names.len(),
{
    assert(names[0].len() > 0 && !names[0].contains('/'));
    assert(names[0].contains(names[0][0]));
    let last = names[names.len() - 1];
    assert(last.len() > 0 && !last.contains('/'));
    assert(last.contains(last[last.len() - 1]));
    if names.len() > 1 {
        let front = names.drop_last();
        assert forall|i: int| 0 <= i < front.len() implies (#[trigger] front[i]).len() > 0
            && !front[i].contains('/') && front[i] != "."@ by {
            assert(front[i] == names[i]);
        }
        lemma_joined_begins(front);
    }
}

/// A relative path of plain names has these names as its parts, in their order.
pub proof fn law_parts_of_names(names: Seq<Seq<char>>)
    requires
        plain_names(names),
        names.len() > 0,
    ensures
        slash_parts(text::joined(names, "/"@)) == names,
        !slash_absolute(text::joined(names, "/"@)),
{
    lemma_joined_begins(names);
    assert forall|i: int| 0 <= i < names.len() implies !(#[trigger] names[i]).contains('/') by {}
    lemma_pieces_of_joined(names);
    lemma_parts_from(names, 0);
    assert(names.skip(0) =~= names);
}

proof fn lemma_last_part(names: Seq<Seq<char>>, n: int)
    requires
        plain_names(names),
        0 < n <= names.len(),
    ensures
        last_part(names, n) == Some(n - 1),
{
    assert(names[n - 1].len() > 0 && names[n - 1] != "."@);
}

/// The last name of a path is its name, and the names before it are where it stands.
pub proof fn law_name_and_parent(names: Seq<Seq<char>>)
    requires
        plain_names(names),
        names.len() > 0,
    ensures
        names.last() != ".."@ ==> slash_name(text::joined(names, "/"@)) == Some(names.last()),
        names.last() == ".."@ ==> slash_name(text::joined(names, "/"@)) is None,
        slash_parent(text::joined(names, "/"@)) == Some(text::joined(names.drop_last(), "/"@)),
{
    law_parts_of_names(names);
    assert forall|i: int| 0 <= i < names.len() implies !(#[trigger] names[i]).contains('/') by {}
    lemma_pieces_of_joined(names);
    let last = names[names.len() - 1];
    assert(!last.contains('/') && last != "."@);
    reveal_strlit("/");
    assert("/"@[0] == '/');
    assert("/"@.contains("/"@[0]));
    lemma_last_part(names, names.len() as int);
    if names.len() > 1 {
        lemma_last_part(names, names.len() - 1);
        assert(names.take(names.len() - 1) =~= names.drop_last());
    } else {
        assert(last_part(names, 0) is None);
        assert(text::joined(names.drop_last(), "/"@) =~= Seq::empty());
    }
}

/// A path below another is the two with one slash between them, and what is absolute
/// stays what it is.
pub proof fn law_below(base: Seq<char>, path: Seq<char>)
    ensures
        slash_absolute(path) <==> path.len() > 0 && path[0] == '/',
        slash_absolute(path) ==> slash_below(base, path) == path,
        !slash_absolute(path) && base.len() == 0 ==> slash_below(base, path) == path,
        !slash_absolute(path) && base.len() > 0 && base.last() == '/' ==> slash_below(base, path)
            == base + path,
        !slash_absolute(path) && base.len() > 0 && base.last() != '/' ==> slash_below(base, path)
            == base + "/"@ + path,
{
    if base.len() == 0 {
        assert(base + path =~= path);
    }
}

/// Names below names are the names of the path.
pub proof fn law_names_below_names(first: Seq<Seq<char>>, behind: Seq<Seq<char>>)
    requires
        plain_names(first),
        plain_names(behind),
        first.len() > 0,
        behind.len() > 0,
    ensures
        slash_parts(slash_below(text::joined(first, "/"@), text::joined(behind, "/"@))) == first
            + behind,
        slash_within(
            slash_below(text::joined(first, "/"@), text::joined(behind, "/"@)),
            text::joined(first, "/"@),
        ),
{
    lemma_joined_begins(first);
    lemma_joined_begins(behind);
    text::law_joined(first, behind, "/"@);
    let all = first + behind;
    assert forall|i: int| 0 <= i < all.len() implies (#[trigger] all[i]).len() > 0
        && !all[i].contains('/') && all[i] != "."@ by {
        if i < first.len() {
            assert(all[i] == first[i]);
        } else {
            assert(all[i] == behind[i - first.len()]);
        }
    }
    law_parts_of_names(all);
    law_parts_of_names(first);
    assert(all.take(first.len() as int) =~= first);
}

/// A path of names is within another if and only if it begins with its names.
pub proof fn law_within(names: Seq<Seq<char>>, root: Seq<Seq<char>>)
    requires
        plain_names(names),
        plain_names(root),
        names.len() > 0,
        root.len() > 0,
    ensures
        slash_within(text::joined(names, "/"@), text::joined(root, "/"@)) <==> root.len()
            <= names.len() && forall|i: int|
            0 <= i < root.len() ==> #[trigger] root[i] == names[i],
{
    law_parts_of_names(names);
    law_parts_of_names(root);
    if root.len() <= names.len() {
        let front = names.take(root.len() as int);
        if front == root {
            assert forall|i: int| 0 <= i < root.len() implies #[trigger] root[i] == names[i] by {
                assert(front[i] == names[i]);
            }
        }
        if forall|i: int| 0 <= i < root.len() ==> #[trigger] root[i] == names[i] {
            assert(front =~= root);
        }
    }
}

/// A relative path is looked for below the base, as it is, and among the assets, each
/// once and in this order.
pub proof fn law_form_paths(rules: RulesView, base: Seq<char>, path: Seq<char>)
    ensures
        !absolute(rules, path) ==> {
            let all = form_paths(rules, base, path);
            &&& all.contains(below(rules, base, path))
            &&& all.contains(path)
            &&& all.contains(below(rules, "/assets"@, path))
            &&& forall|i: int|
                0 <= i < all.len() ==> #[trigger] all[i] == below(rules, base, path) || all[i]
                    == path || all[i] == below(rules, "/assets"@, path)
            &&& path != below(rules, base, path) ==> all[1] == path
            &&& below(rules, "/assets"@, path) != path && below(rules, "/assets"@, path) != below(
                rules,
                base,
                path,
            ) ==> all.last() == below(rules, "/assets"@, path)
        },
{
    if !absolute(rules, path) {
        let one = seq![below(rules, base, path)];
        let two = with_new(one, path);
        let all = form_paths(rules, base, path);
        assert(one[0] == below(rules, base, path));
        assert(two[0] == below(rules, base, path));
        assert(all[0] == below(rules, base, path));
        if path != below(rules, base, path) {
            assert(!one.contains(path));
            assert(two[1] == path);
            assert(all[1] == path);
        }
        if two.contains(below(rules, "/assets"@, path)) {
            let k = choose|k: int| 0 <= k < two.len() && two[k] == below(rules, "/assets"@, path);
            assert(all[k] == below(rules, "/assets"@, path));
        } else {
            assert(all[all.len() - 1] == below(rules, "/assets"@, path));
        }
    }
}

/// The texts of a form that stands among the forms are beside them; those of another
/// form are beside the form itself.
pub proof fn law_i18n_dir(rules: RulesView, form_path: Seq<char>, at: int)
    ensures
        ({
            let all = parts(rules, form_path);
            &&& 0 <= at < all.len() && all[at] == "forms"@ && (forall|i: int|
                0 <= i < at ==> #[trigger] all[i] != "forms"@) ==> i18n_dir(rules, form_path)
                == below(rules, path_of(rules, all, at), "i18n"@)
            &&& !all.contains("forms"@) ==> i18n_dir(rules, form_path) == below(
                rules,
                match parent(rules, form_path) {
                    Some(dir) => dir,
                    None => "."@,
                },
                "i18n"@,
            )
        }),
{
    let all = parts(rules, form_path);
    if 0 <= at < all.len() && all[at] == "forms"@ && forall|i: int|
        0 <= i < at ==> #[trigger] all[i] != "forms"@ {
        crate::entries::lemma_position_is(all, "forms"@, at);
    }
    crate::entries::lemma_position(all, "forms"@);
}

/// A path is put together of its parts, each below those before it, and a locale's
/// file is named after the locale.
pub proof fn law_path_of(rules: RulesView, parts: Seq<Seq<char>>, n: int, locale: Seq<char>)
    requires
        0 < n <= parts.len(),
    ensures
        path_of(rules, parts, 0).len() == 0,
        path_of(rules, parts, n) == below(rules, path_of(rules, parts, n - 1), parts[n - 1]),
        locale_file(rules, parts[0], locale) == below(rules, parts[0], locale + ".json"@),
{
}

/// On a host that separates with slashes and has no drives, paths go by slashes
/// alone.
pub proof fn law_slash_hosts(rules: RulesView, base: Seq<char>, path: Seq<char>)
    requires
        rules.separator == '/',
        !rules.drives,
    ensures
        absolute(rules, path) <==> path.len() > 0 && path[0] == '/',
        below(rules, base, path) == slash_below(base, path),
        parts(rules, path) == slash_parts(path),
        parent(rules, path) == slash_parent(path),
        last_name(rules, path) == slash_name(path),
        within(rules, path, base) == slash_within(path, base),
{
}

/// On any other host paths go by the host's own rules.
pub proof fn law_other_hosts(rules: RulesView, base: Seq<char>, path: Seq<char>)
    requires
        rules.separator != '/' || rules.drives,
    ensures
        absolute(rules, path) == host_absolute(rules, path),
        below(rules, base, path) == host_below(rules, base, path),
        parts(rules, path) == host_parts(rules, path),
        parent(rules, path) == host_parent(rules, path),
        last_name(rules, path) == host_name(rules, path),
        within(rules, path, base) == host_within(rules, path, base),
{
}

} // verus!
