//! The environment and labels of an image's configuration.
use vstd::prelude::*;

use crate::reference::{reference_string, ImageReference};
use crate::strmap::{lemma_pair_set, pair_get, pair_set, PairsView, StringMap};
use crate::text::{
    find_char, first_index, join, join_path, last_index, lemma_first_index, lemma_last_index,
    rfind_char, str_eq,
};

verus! {

/// The variable that records an image's own reference, so that an image built from it
/// can default its base to it.
pub const IMAGE_REF_VAR: &'static str = "STENCILA_IMAGE_REF";

/// The label that records the product version.
pub const VERSION_LABEL: &'static str = "io.stencila.version";

/// The working directory of every image.
pub const IMAGE_WORKING_DIR: &'static str = "/workspace";

/// A `NAME=VALUE` entry split at its first `=`; with no `=`, the value is empty.
pub open spec fn env_pair(entry: Seq<char>) -> (Seq<char>, Seq<char>) {
    let i = first_index(entry, '=');
    if i >= 0 {
        (entry.subrange(0, i), entry.subrange(i + 1, entry.len() as int))
    } else {
        (entry, Seq::empty())
    }
}

/// The variables of a list of `NAME=VALUE` entries; a later entry for a name wins.
pub open spec fn env_of_list(list: Seq<Seq<char>>) -> PairsView
    decreases list.len(),
{
    if list.len() == 0 {
        Seq::empty()
    } else {
        let (k, v) = env_pair(list.last());
        pair_set(env_of_list(list.drop_last()), k, v)
    }
}

/// The value of `k`, or the empty sequence.
pub open spec fn value_or_empty(env: PairsView, k: Seq<char>) -> Seq<char> {
    match pair_get(env, k) {
        Some(v) => v,
        None => Seq::empty(),
    }
}

/// `dir` prepended to the search path `var`, with `:` between.
pub open spec fn with_search_dir(env: PairsView, var: Seq<char>, dir: Seq<char>) -> PairsView {
    pair_set(env, var, dir + ":"@ + value_or_empty(env, var))
}

/// A buildpack layer directory's `bin` prepended to `PATH` and its `lib` to
/// `LD_LIBRARY_PATH`.
pub open spec fn with_layer_dir(env: PairsView, dir: Seq<char>) -> PairsView {
    with_search_dir(
        with_search_dir(env, "PATH"@, join_path(dir, "bin"@)),
        "LD_LIBRARY_PATH"@,
        join_path(dir, "lib"@),
    )
}

/// `with_layer_dir` for each directory in turn.
pub open spec fn with_layer_dirs(env: PairsView, dirs: Seq<Seq<char>>) -> PairsView
    decreases dirs.len(),
{
    if dirs.len() == 0 {
        env
    } else {
        with_layer_dir(with_layer_dirs(env, dirs.drop_last()), dirs.last())
    }
}

/// What an env file does to its variable.
#[derive(Debug, Clone, Copy, PartialEq, Eq, Structural)]
pub enum EnvAction {
    /// Sets the variable where it is empty.
    Default,
    /// Puts the content before the value, unless the value already holds it.
    Prepend,
    /// Puts the content after the value, unless the value already holds it.
    Append,
    /// Sets the variable.
    Override,
}

/// What came of one env file.
#[derive(Debug, Clone, Copy, PartialEq, Eq, Structural)]
pub enum EnvFileOutcome {
    Applied(EnvAction),
    /// The file name has no extension to take an action from.
    NoAction,
    /// The extension names no action; the variable is left as it was.
    UnknownAction,
}

/// The stem and extension of a file name, split at its last `.`; none where the only
/// `.` leads the name or there is none.
pub open spec fn stem_and_extension(f: Seq<char>) -> Option<(Seq<char>, Seq<char>)> {
    let i = last_index(f, '.');
    if i > 0 {
        Some((f.subrange(0, i), f.subrange(i + 1, f.len() as int)))
    } else {
        None
    }
}

pub open spec fn action_named(ext: Seq<char>) -> Option<EnvAction> {
    if ext == "default"@ {
        Some(EnvAction::Default)
    } else if ext == "prepend"@ {
        Some(EnvAction::Prepend)
    } else if ext == "append"@ {
        Some(EnvAction::Append)
    } else if ext == "override"@ {
        Some(EnvAction::Override)
    } else {
        None
    }
}

/// Whether `needle` occurs in `hay`.
pub open spec fn holds_seq(hay: Seq<char>, needle: Seq<char>) -> bool {
    exists|i: int|
        0 <= i && i + needle.len() <= hay.len() && #[trigger] hay.subrange(i, i + needle.len())
            == needle
}

/// The value after an action with `content`.
pub open spec fn acted_value(a: EnvAction, value: Seq<char>, content: Seq<char>) -> Seq<char> {
    match a {
        EnvAction::Default => if value.len() == 0 {
            content
        } else {
            value
        },
        EnvAction::Prepend => if holds_seq(value, content) {
            value
        } else {
            content + value
        },
        EnvAction::Append => if holds_seq(value, content) {
            value
        } else {
            value + content
        },
        EnvAction::Override => content,
    }
}

/// The variables after the env file `NAME.action` with `content`.
pub open spec fn with_env_file(env: PairsView, file_name: Seq<char>, content: Seq<char>) -> PairsView {
    match stem_and_extension(file_name) {
        Some((name, ext)) => match action_named(ext) {
            Some(a) => pair_set(env, name, acted_value(a, value_or_empty(env, name), content)),
            None => env,
        },
        None => env,
    }
}

/// `with_env_file` for each (file name, content) in turn.
pub open spec fn with_env_files(env: PairsView, files: Seq<(Seq<char>, Seq<char>)>) -> PairsView
    decreases files.len(),
{
    if files.len() == 0 {
        env
    } else {
        let (f, c) = files.last();
        with_env_file(with_env_files(env, files.drop_last()), f, c)
    }
}

/// The environment of an image: that of its base, then the lifecycle's search paths for
/// each buildpack layer directory, then each env file, then its own reference.
pub open spec fn image_env_spec(
    base: Seq<Seq<char>>,
    layer_dirs: Seq<Seq<char>>,
    env_files: Seq<(Seq<char>, Seq<char>)>,
    reference: Seq<char>,
) -> PairsView {
    pair_set(
        with_env_files(with_layer_dirs(env_of_list(base), layer_dirs), env_files),
        IMAGE_REF_VAR@,
        reference,
    )
}

/// Each variable as `NAME=VALUE`.
pub open spec fn env_entries(env: PairsView) -> Seq<Seq<char>> {
    env.map_values(|p: (Seq<char>, Seq<char>)| p.0 + "="@ + p.1)
}

pub open spec fn strings_view(v: Seq<String>) -> Seq<Seq<char>> {
    v.map_values(|s: String| s@)
}

pub open spec fn string_pairs_view(v: Seq<(String, String)>) -> PairsView {
    v.map_values(|p: (String, String)| (p.0@, p.1@))
}

/// Whether `needle` occurs in `hay`.
pub fn contains_str(hay: &str, needle: &str) -> (r: bool)
    ensures
        r == holds_seq(hay@, needle@),
{
    let n = hay.unicode_len();
    let m = needle.unicode_len();
    if m > n {
        return false;
    }
    let last = n - m;
    let mut i: usize = 0;
    while i <= last
        invariant
            n == hay@.len(),
            m == needle@.len(),
            last == n - m,
            i <= last + 1,
            forall|j: int| 0 <= j < i ==> #[trigger] hay@.subrange(j, j + m) != needle@,
        decreases last + 1 - i,
    {
        if str_eq(hay.substring_char(i, i + m), needle) {
            return true;
        }
        if i == last {
            return false;
        }
        i = i + 1;
    }
    false
}

/// The variables of a list of `NAME=VALUE` entries; a later entry for a name wins.
pub fn env_from_list(list: &Vec<String>) -> (r: StringMap)
    ensures
        r.wf(),
        r.view() == env_of_list(strings_view(list@)),
{
    let ghost all = strings_view(list@);
    let mut env = StringMap::new();
    let mut i: usize = 0;
    while i < list.len()
        invariant
            all == strings_view(list@),
            i <= list@.len(),
            env.wf(),
            env.view() == env_of_list(all.take(i as int)),
        decreases list@.len() - i,
    {
        let ghost t = all.take(i + 1);
        assert(t.drop_last() =~= all.take(i as int));
        let entry = list[i].as_str();
        assert(t.last() == entry@);
        let eq = find_char(entry, '=');
        let n = entry.unicode_len();
        proof {
            lemma_first_index(entry@, '=');
        }
        if eq < n {
            env.set(entry.substring_char(0, eq).to_string(), entry.substring_char(eq + 1, n).to_string());
        } else {
            env.set(entry.to_string(), String::new());
        }
        i = i + 1;
    }
    assert(all.take(all.len() as int) =~= all);
    env
}

fn prepend_search_dir(env: &mut StringMap, var: &str, dir: String)
    requires
        old(env).wf(),
    ensures
        final(env).wf(),
        final(env).view() == with_search_dir(old(env).view(), var@, dir@),
{
    let mut value = dir;
    value.append(":");
    let old_value = env.get_or_empty(var);
    value.append(old_value.as_str());
    env.set(var.to_string(), value);
}

/// Adds the lifecycle's search paths for each buildpack layer directory in turn.
pub fn add_layer_dirs(env: &mut StringMap, dirs: &Vec<String>)
    requires
        old(env).wf(),
    ensures
        final(env).wf(),
        final(env).view() == with_layer_dirs(old(env).view(), strings_view(dirs@)),
{
    let ghost start = env.view();
    let ghost all = strings_view(dirs@);
    let mut i: usize = 0;
    while i < dirs.len()
        invariant
            all == strings_view(dirs@),
            i <= dirs@.len(),
            env.wf(),
            env.view() == with_layer_dirs(start, all.take(i as int)),
        decreases dirs@.len() - i,
    {
        let ghost t = all.take(i + 1);
        assert(t.drop_last() =~= all.take(i as int));
        assert(t.last() == dirs@[i as int]@);
        let dir = dirs[i].as_str();
        prepend_search_dir(env, "PATH", join(dir, "bin"));
        prepend_search_dir(env, "LD_LIBRARY_PATH", join(dir, "lib"));
        i = i + 1;
    }
    assert(all.take(all.len() as int) =~= all);
}

fn action_of(ext: &str) -> (r: Option<EnvAction>)
    ensures
        r == action_named(ext@),
{
    if str_eq(ext, "default") {
        Some(EnvAction::Default)
    } else if str_eq(ext, "prepend") {
        Some(EnvAction::Prepend)
    } else if str_eq(ext, "append") {
        Some(EnvAction::Append)
    } else if str_eq(ext, "override") {
        Some(EnvAction::Override)
    } else {
        None
    }
}

/// Applies the env file `NAME.action` with `content` to its variable `NAME`.
pub fn apply_env_file(env: &mut StringMap, file_name: &str, content: &str) -> (r: EnvFileOutcome)
    requires
        old(env).wf(),
    ensures
        final(env).wf(),
        final(env).view() == with_env_file(old(env).view(), file_name@, content@),
        r == match stem_and_extension(file_name@) {
            Some((_, ext)) => match action_named(ext) {
                Some(a) => EnvFileOutcome::Applied(a),
                None => EnvFileOutcome::UnknownAction,
            },
            None => EnvFileOutcome::NoAction,
        },
{
    let n = file_name.unicode_len();
    proof {
        lemma_last_index(file_name@, '.');
    }
    let dot = match rfind_char(file_name, '.') {
        Some(i) => i,
        None => 0,
    };
    if dot == 0 {
        return EnvFileOutcome::NoAction;
    }
    let name = file_name.substring_char(0, dot);
    let ext = file_name.substring_char(dot + 1, n);
    let action = match action_of(ext) {
        Some(a) => a,
        None => {
            return EnvFileOutcome::UnknownAction;
        },
    };
    let value = env.get_or_empty(name);
    let new_value = match action {
        EnvAction::Default => if value.unicode_len() == 0 {
            content.to_string()
        } else {
            value
        },
        EnvAction::Prepend => if contains_str(value.as_str(), content) {
            value
        } else {
            let mut v = content.to_string();
            v.append(value.as_str());
            v
        },
        EnvAction::Append => if contains_str(value.as_str(), content) {
            value
        } else {
            let mut v = value;
            v.append(content);
            v
        },
        EnvAction::Override => content.to_string(),
    };
    env.set(name.to_string(), new_value);
    EnvFileOutcome::Applied(action)
}

/// Each variable as `NAME=VALUE`, in order.
pub fn env_to_list(env: &StringMap) -> (r: Vec<String>)
    ensures
        strings_view(r@) == env_entries(env.view()),
{
    let pairs = env.pairs();
    let ghost v = env.view();
    let mut out: Vec<String> = Vec::new();
    let mut i: usize = 0;
    while i < pairs.len()
        invariant
            v == pairs@.map_values(|p: (String, String)| (p.0@, p.1@)),
            i <= pairs@.len(),
            strings_view(out@) == env_entries(v.take(i as int)),
        decreases pairs@.len() - i,
    {
        let mut entry = pairs[i].0.clone();
        entry.append("=");
        entry.append(pairs[i].1.as_str());
        let ghost before = out@;
        out.push(entry);
        assert(strings_view(out@) =~= strings_view(before).push(entry@));
        assert(env_entries(v.take(i + 1)) =~= env_entries(v.take(i as int)).push(
            v[i as int].0 + "="@ + v[i as int].1,
        ));
        i = i + 1;
    }
    assert(v.take(v.len() as int) =~= v);
    out
}

/// What an env file of this name would do.
pub fn env_file_action(file_name: &str) -> (r: EnvFileOutcome)
    ensures
        r == match stem_and_extension(file_name@) {
            Some((_, ext)) => match action_named(ext) {
                Some(a) => EnvFileOutcome::Applied(a),
                None => EnvFileOutcome::UnknownAction,
            },
            None => EnvFileOutcome::NoAction,
        },
{
    let mut scratch = StringMap::new();
    apply_env_file(&mut scratch, file_name, "")
}

/// The environment of an image as `NAME=VALUE` entries: the base image's variables, the
/// search paths of each buildpack layer directory, each env file (file name, content) in
/// turn, and finally the image's own reference.
pub fn image_env(
    base_env: &Vec<String>,
    layer_dirs: &Vec<String>,
    env_files: &Vec<(String, String)>,
    reference: &ImageReference,
) -> (r: Vec<String>)
    ensures
        strings_view(r@) == env_entries(
            image_env_spec(
                strings_view(base_env@),
                strings_view(layer_dirs@),
                string_pairs_view(env_files@),
                reference_string(reference@),
            ),
        ),
{
    let mut env = env_from_list(base_env);
    add_layer_dirs(&mut env, layer_dirs);
    let ghost start = env.view();
    let ghost files = string_pairs_view(env_files@);
    let mut i: usize = 0;
    while i < env_files.len()
        invariant
            files == string_pairs_view(env_files@),
            i <= env_files@.len(),
            env.wf(),
            env.view() == with_env_files(start, files.take(i as int)),
        decreases env_files@.len() - i,
    {
        let ghost t = files.take(i + 1);
        assert(t.drop_last() =~= files.take(i as int));
        assert(t.last() == (env_files@[i as int].0@, env_files@[i as int].1@));
        apply_env_file(&mut env, env_files[i].0.as_str(), env_files[i].1.as_str());
        i = i + 1;
    }
    assert(files.take(files.len() as int) =~= files);
    env.set(String::from_str(IMAGE_REF_VAR), reference.to_string());
    env_to_list(&env)
}

/// `s` without one trailing carriage return.
pub open spec fn without_cr(s: Seq<char>) -> Seq<char> {
    if s.len() > 0 && s.last() == '\r' {
        s.drop_last()
    } else {
        s
    }
}

/// The lines of a text, as `str::lines` gives them: split at each `\n`, without a
/// trailing `\r`, and with no empty last line after a final `\n`.
pub open spec fn lines_of(s: Seq<char>) -> Seq<Seq<char>>
    decreases s.len(),
{
    let i = first_index(s, '\n');
    if s.len() == 0 {
        Seq::empty()
    } else if 0 <= i < s.len() {
        seq![without_cr(s.subrange(0, i))] + lines_of(s.subrange(i + 1, s.len() as int))
    } else {
        seq![without_cr(s)]
    }
}

/// The labels after one `name value` line; a line without a space sets nothing.
pub open spec fn with_label_line(labels: PairsView, line: Seq<char>) -> PairsView {
    let i = first_index(line, ' ');
    if i >= 0 {
        pair_set(labels, line.subrange(0, i), line.subrange(i + 1, line.len() as int))
    } else {
        labels
    }
}

pub open spec fn with_label_lines(labels: PairsView, lines: Seq<Seq<char>>) -> PairsView
    decreases lines.len(),
{
    if lines.len() == 0 {
        labels
    } else {
        with_label_lines(with_label_line(labels, lines[0]), lines.drop_first())
    }
}

/// The labels of a list of pairs; a later pair for a name wins.
pub open spec fn labels_of_list(list: PairsView) -> PairsView
    decreases list.len(),
{
    if list.len() == 0 {
        Seq::empty()
    } else {
        pair_set(labels_of_list(list.drop_last()), list.last().0, list.last().1)
    }
}

/// The labels of an image: the base image's, the product version, then each
/// `name value` line of the working directory's label file.
pub open spec fn image_labels_spec(base: PairsView, version: Seq<char>, label_file: Option<Seq<char>>) -> PairsView {
    let labels = pair_set(labels_of_list(base), VERSION_LABEL@, version);
    match label_file {
        Some(content) => with_label_lines(labels, lines_of(content)),
        None => labels,
    }
}

fn without_cr_str(s: &str) -> (r: &str)
    ensures
        r@ == without_cr(s@),
{
    let n = s.unicode_len();
    if n > 0 && s.get_char(n - 1) == '\r' {
        s.substring_char(0, n - 1)
    } else {
        s
    }
}

fn set_label_line(labels: &mut StringMap, line: &str)
    requires
        old(labels).wf(),
    ensures
        final(labels).wf(),
        final(labels).view() == with_label_line(old(labels).view(), line@),
{
    let n = line.unicode_len();
    let sp = find_char(line, ' ');
    if sp < n {
        labels.set(line.substring_char(0, sp).to_string(), line.substring_char(sp + 1, n).to_string());
    }
}

/// Sets a label for each `name value` line of `content`.
pub fn add_label_lines(labels: &mut StringMap, content: &str)
    requires
        old(labels).wf(),
    ensures
        final(labels).wf(),
        final(labels).view() == with_label_lines(old(labels).view(), lines_of(content@)),
    decreases content@.len(),
{
    let n = content.unicode_len();
    if n == 0 {
        return;
    }
    let nl = find_char(content, '\n');
    proof {
        lemma_first_index(content@, '\n');
    }
    if nl < n {
        let line = without_cr_str(content.substring_char(0, nl));
        set_label_line(labels, line);
        let rest = content.substring_char(nl + 1, n);
        let ghost lines = lines_of(content@);
        assert(lines[0] == line@);
        assert(lines.drop_first() =~= lines_of(rest@));
        let ghost mid = labels.view();
        assert(with_label_lines(old(labels).view(), lines) == with_label_lines(mid, lines.drop_first()));
        add_label_lines(labels, rest);
    } else {
        let line = without_cr_str(content);
        set_label_line(labels, line);
        let ghost lines = lines_of(content@);
        assert(lines[0] == line@);
        assert(lines.drop_first() =~= Seq::<Seq<char>>::empty());
        let ghost mid = labels.view();
        assert(with_label_lines(mid, Seq::<Seq<char>>::empty()) == mid);
        assert(with_label_lines(old(labels).view(), lines) == with_label_lines(mid, lines.drop_first()));
    }
}

/// The labels of an image as (name, value) pairs.
pub fn image_labels(base_labels: &Vec<(String, String)>, version: &str, label_file: Option<&str>) -> (r: Vec<
    (String, String),
>)
    ensures
        string_pairs_view(r@) == image_labels_spec(
            string_pairs_view(base_labels@),
            version@,
            match label_file {
                Some(c) => Some(c@),
                None => None,
            },
        ),
{
    let ghost all = string_pairs_view(base_labels@);
    let mut labels = StringMap::new();
    let mut i: usize = 0;
    while i < base_labels.len()
        invariant
            all == string_pairs_view(base_labels@),
            i <= base_labels@.len(),
            labels.wf(),
            labels.view() == labels_of_list(all.take(i as int)),
        decreases base_labels@.len() - i,
    {
        let ghost t = all.take(i + 1);
        assert(t.drop_last() =~= all.take(i as int));
        labels.set(base_labels[i].0.clone(), base_labels[i].1.clone());
        i = i + 1;
    }
    assert(all.take(all.len() as int) =~= all);
    labels.set(String::from_str(VERSION_LABEL), version.to_string());
    match label_file {
        Some(content) => add_label_lines(&mut labels, content),
        None => {},
    }
    labels.into_pairs()
}

/// An env file applied twice has the effect of applying it once: `prepend` and
/// `append` do not grow a variable that already holds the content, so repeated builds
/// on an image built this way leave its variables as they are.
pub proof fn lemma_env_file_idempotent(env: PairsView, file_name: Seq<char>, content: Seq<char>)
    ensures
        with_env_file(with_env_file(env, file_name, content), file_name, content) == with_env_file(
            env,
            file_name,
            content,
        ),
{
    match stem_and_extension(file_name) {
        Some((name, ext)) => match action_named(ext) {
            Some(a) => {
                let value = value_or_empty(env, name);
                let acted = acted_value(a, value, content);
                lemma_pair_set(env, name, acted);
                let once = pair_set(env, name, acted);
                assert(value_or_empty(once, name) == acted);
                match a {
                    EnvAction::Prepend => {
                        if !holds_seq(value, content) {
                            assert(acted.subrange(0int, 0int + content.len()) =~= content);
                            assert(holds_seq(acted, content));
                        }
                    },
                    EnvAction::Append => {
                        if !holds_seq(value, content) {
                            let n = value.len() as int;
                            assert((value + content).subrange(n, n + content.len()) =~= content);
                            assert(holds_seq(acted, content));
                        }
                    },
                    _ => {},
                }
                assert(acted_value(a, acted, content) == acted);
            },
            None => {},
        },
        None => {},
    }
}

} // verus!
