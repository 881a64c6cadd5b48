//! The environment a game's manifest asks for: variables set (with the home
//! directory expanded) and variables removed, applied to a runner command.
use vstd::prelude::*;
use crate::text::{lemma_push_contains, append_text, chars_of, opt_str, owned, starts_with, starts_with_text, str_eq, string_of};
use crate::manifest::GameManifest;
use crate::runners::{CommandView, RunnerCommand};

verus! {

// ---------------------------------------------------------------------------
// Values
// ---------------------------------------------------------------------------
/// A manifest value with the home directory expanded: `~`, `$HOME` and
/// `${HOME}` alone or before a `/`. Without a home directory the value stays.
pub open spec fn expanded_env_value(value: Seq<char>, home: Option<Seq<char>>) -> Seq<char> {
    match home {
        None => value,
        Some(h) => if value == "~"@ || value == "$HOME"@ || value == "${HOME}"@ {
            h
        } else if starts_with(value, "~/"@) {
            h + "/"@ + value.skip(2)
        } else if starts_with(value, "$HOME/"@) {
            h + "/"@ + value.skip(6)
        } else if starts_with(value, "${HOME}/"@) {
            h + "/"@ + value.skip(8)
        } else {
            value
        },
    }
}

fn home_and_rest(home: &str, value: &Vec<char>, skip: usize) -> (r: String)
    requires
        skip <= value.len(),
    ensures
        r@ == home@ + "/"@ + value@.skip(skip as int),
{
    let mut r = owned(home);
    r.append("/");
    let mut rest: Vec<char> = Vec::new();
    let mut i: usize = skip;
    while i < value.len()
        invariant
            skip <= i <= value.len(),
            rest@ == value@.subrange(skip as int, i as int),
        decreases value.len() - i,
    {
        rest.push(value[i]);
        assert(value@.subrange(skip as int, i + 1) == value@.subrange(skip as int, i as int).push(
            value@[i as int],
        ));
        i = i + 1;
    }
    let rs = string_of(&rest);
    r.append(rs.as_str());
    r
}

/// The value a manifest gives for a variable, with `home` (the user's home
/// directory, when it is known) expanded.
pub fn expand_manifest_env_value(value: &str, home: Option<&str>) -> (r: String)
    ensures
        r@ == expanded_env_value(value@, opt_str(home)),
{
    let h = match home {
        None => return owned(value),
        Some(h) => h,
    };
    let v = chars_of(value);
    proof {
        reveal_strlit("~/");
        reveal_strlit("$HOME/");
        reveal_strlit("${HOME}/");
    }
    if str_eq(value, "~") || str_eq(value, "$HOME") || str_eq(value, "${HOME}") {
        return owned(h);
    }
    if starts_with_text(&v, "~/") {
        return home_and_rest(h, &v, 2);
    }
    if starts_with_text(&v, "$HOME/") {
        return home_and_rest(h, &v, 6);
    }
    if starts_with_text(&v, "${HOME}/") {
        return home_and_rest(h, &v, 8);
    }
    owned(value)
}

// ---------------------------------------------------------------------------
// Variables
// ---------------------------------------------------------------------------
/// The variables without those named `key`, in order.
pub open spec fn without_key(envs: Seq<(Seq<char>, Seq<char>)>, key: Seq<char>) -> Seq<
    (Seq<char>, Seq<char>),
>
    decreases envs.len(),
{
    if envs.len() == 0 {
        envs
    } else {
        let rest = without_key(envs.drop_last(), key);
        if envs.last().0 == key {
            rest
        } else {
            rest.push(envs.last())
        }
    }
}

/// The variables after setting each pair in order: an earlier value of the
/// name is dropped and the new one, expanded, goes last.
pub open spec fn with_env_pairs(
    envs: Seq<(Seq<char>, Seq<char>)>,
    pairs: Seq<(Seq<char>, Seq<char>)>,
    home: Option<Seq<char>>,
) -> Seq<(Seq<char>, Seq<char>)>
    decreases pairs.len(),
{
    if pairs.len() == 0 {
        envs
    } else {
        let e = with_env_pairs(envs, pairs.drop_last(), home);
        let p = pairs.last();
        without_key(e, p.0).push((p.0, expanded_env_value(p.1, home)))
    }
}

/// The variables without any of `keys`.
pub open spec fn without_keys(envs: Seq<(Seq<char>, Seq<char>)>, keys: Seq<Seq<char>>) -> Seq<
    (Seq<char>, Seq<char>),
>
    decreases keys.len(),
{
    if keys.len() == 0 {
        envs
    } else {
        without_key(without_keys(envs, keys.drop_last()), keys.last())
    }
}

/// The list of removed variables after adding `keys`, each once.
pub open spec fn with_unset_keys(unset: Seq<Seq<char>>, keys: Seq<Seq<char>>) -> Seq<Seq<char>>
    decreases keys.len(),
{
    if keys.len() == 0 {
        unset
    } else {
        let u = with_unset_keys(unset, keys.drop_last());
        if u.contains(keys.last()) {
            u
        } else {
            u.push(keys.last())
        }
    }
}

/// A command after the manifest's variables are set and removed.
pub open spec fn overridden(
    c: CommandView,
    pairs: Seq<(Seq<char>, Seq<char>)>,
    keys: Seq<Seq<char>>,
    home: Option<Seq<char>>,
) -> CommandView {
    CommandView {
        envs: without_keys(with_env_pairs(c.envs, pairs, home), keys),
        unset_envs: with_unset_keys(c.unset_envs, keys),
        ..c
    }
}

fn remove_env_key(envs: &mut Vec<(String, String)>, key: &String)
    ensures
        final(envs).deep_view() == without_key(old(envs).deep_view(), key@),
{
    let ghost src = envs.deep_view();
    let mut out: Vec<(String, String)> = Vec::new();
    let mut i: usize = 0;
    assert(src.take(0) =~= Seq::<(Seq<char>, Seq<char>)>::empty());
    while i < envs.len()
        invariant
            i <= envs.len(),
            src == envs.deep_view(),
            out.deep_view() == without_key(src.take(i as int), key@),
        decreases envs.len() - i,
    {
        let (k, v) = &envs[i];
        assert(src[i as int] == (k@, v@));
        assert(src.take(i + 1).drop_last() =~= src.take(i as int));
        assert(src.take(i + 1).last() == src[i as int]);
        if !str_eq(k.as_str(), key.as_str()) {
            let ghost before = out.deep_view();
            out.push((k.clone(), v.clone()));
            assert(out.deep_view() =~= before.push((k@, v@)));
        }
        i = i + 1;
    }
    assert(src.take(envs.len() as int) =~= src);
    *envs = out;
}

fn contains_name(names: &Vec<String>, key: &String) -> (r: bool)
    ensures
        r == names.deep_view().contains(key@),
{
    let mut i: usize = 0;
    while i < names.len()
        invariant
            i <= names.len(),
            forall|j: int| 0 <= j < i ==> names.deep_view()[j] != key@,
        decreases names.len() - i,
    {
        assert(names.deep_view()[i as int] == names@[i as int]@);
        if str_eq(names[i].as_str(), key.as_str()) {
            assert(names.deep_view()[i as int] == key@);
            return true;
        }
        i = i + 1;
    }
    false
}

/// Sets the variables `env` and removes those of `unset_env` in `command`,
/// expanding the home directory `home` in the values.
pub fn apply_environment_overrides(
    command: &mut RunnerCommand,
    env: &Vec<(String, String)>,
    unset_env: &Vec<String>,
    home: Option<&str>,
)
    ensures
        final(command)@ == overridden(old(command)@, env.deep_view(), unset_env.deep_view(), opt_str(home)),
{
    let ghost start = command@;
    let ghost pairs = env.deep_view();
    let ghost keys = unset_env.deep_view();
    let mut i: usize = 0;
    assert(pairs.take(0) =~= Seq::<(Seq<char>, Seq<char>)>::empty());
    while i < env.len()
        invariant
            i <= env.len(),
            pairs == env.deep_view(),
            command@ == (CommandView {
                envs: with_env_pairs(start.envs, pairs.take(i as int), opt_str(home)),
                ..start
            }),
        decreases env.len() - i,
    {
        let (k, v) = &env[i];
        assert(pairs[i as int] == (k@, v@));
        assert(pairs.take(i + 1).drop_last() =~= pairs.take(i as int));
        assert(pairs.take(i + 1).last() == pairs[i as int]);
        remove_env_key(&mut command.envs, k);
        let value = expand_manifest_env_value(v.as_str(), home);
        let ghost before = command.envs.deep_view();
        command.envs.push((k.clone(), value));
        assert(command.envs.deep_view() =~= before.push((k@, expanded_env_value(v@, opt_str(home)))));
        i = i + 1;
    }
    assert(pairs.take(env.len() as int) =~= pairs);
    let ghost mid = command@;
    let mut j: usize = 0;
    assert(keys.take(0) =~= Seq::<Seq<char>>::empty());
    while j < unset_env.len()
        invariant
            j <= unset_env.len(),
            keys == unset_env.deep_view(),
            command@ == (CommandView {
                envs: without_keys(mid.envs, keys.take(j as int)),
                unset_envs: with_unset_keys(mid.unset_envs, keys.take(j as int)),
                ..mid
            }),
        decreases unset_env.len() - j,
    {
        let key = &unset_env[j];
        assert(keys[j as int] == key@);
        assert(keys.take(j + 1).drop_last() =~= keys.take(j as int));
        assert(keys.take(j + 1).last() == keys[j as int]);
        remove_env_key(&mut command.envs, key);
        if !contains_name(&command.unset_envs, key) {
            let ghost before = command.unset_envs.deep_view();
            command.unset_envs.push(key.clone());
            assert(command.unset_envs.deep_view() =~= before.push(key@));
        }
        j = j + 1;
    }
    assert(keys.take(unset_env.len() as int) =~= keys);
}

/// Applies the launch environment of `manifest` to `command`.
pub fn apply_launch_environment(manifest: &GameManifest, command: &mut RunnerCommand, home: Option<&str>)
    ensures
        final(command)@ == overridden(
            old(command)@,
            manifest.launch.env.deep_view(),
            manifest.launch.unset_env.deep_view(),
            opt_str(home),
        ),
{
    apply_environment_overrides(command, &manifest.launch.env, &manifest.launch.unset_env, home);
}

/// Applies the launch environment of `manifest`, then its update
/// environment, to `command`.
pub fn apply_update_environment(manifest: &GameManifest, command: &mut RunnerCommand, home: Option<&str>)
    ensures
        final(command)@ == overridden(
            overridden(
                old(command)@,
                manifest.launch.env.deep_view(),
                manifest.launch.unset_env.deep_view(),
                opt_str(home),
            ),
            manifest.update.env.deep_view(),
            manifest.update.unset_env.deep_view(),
            opt_str(home),
        ),
{
    apply_launch_environment(manifest, command, home);
    apply_environment_overrides(command, &manifest.update.env, &manifest.update.unset_env, home);
}

// ---------------------------------------------------------------------------
// What applying the variables keeps
// ---------------------------------------------------------------------------
/// No name occurs twice among the variables.
pub open spec fn keys_distinct(e: Seq<(Seq<char>, Seq<char>)>) -> bool {
    forall|i: int, j: int| 0 <= i < j < e.len() ==> #[trigger] e[i].0 != #[trigger] e[j].0
}

/// No name occurs twice in the list.
pub open spec fn names_distinct(u: Seq<Seq<char>>) -> bool {
    forall|i: int, j: int| 0 <= i < j < u.len() ==> #[trigger] u[i] != #[trigger] u[j]
}

/// The pair at `i` is the last that sets its name.
pub open spec fn last_setting(pairs: Seq<(Seq<char>, Seq<char>)>, i: int) -> bool {
    forall|j: int| i < j < pairs.len() ==> #[trigger] pairs[j].0 != pairs[i].0
}

/// No pair sets the name `k`.
pub open spec fn not_set(pairs: Seq<(Seq<char>, Seq<char>)>, k: Seq<char>) -> bool {
    forall|j: int| 0 <= j < pairs.len() ==> #[trigger] pairs[j].0 != k
}

proof fn lemma_without_key(envs: Seq<(Seq<char>, Seq<char>)>, key: Seq<char>)
    ensures
        forall|x: (Seq<char>, Seq<char>)|
            #[trigger] without_key(envs, key).contains(x) <==> (envs.contains(x) && x.0 != key),
        keys_distinct(envs) ==> keys_distinct(without_key(envs, key)),
    decreases envs.len(),
{
    if envs.len() > 0 {
        let init = envs.drop_last();
        let last = envs.last();
        lemma_without_key(init, key);
        let rest = without_key(init, key);
        assert(envs =~= init.push(last));
        assert forall|x: (Seq<char>, Seq<char>)|
            #[trigger] without_key(envs, key).contains(x) <==> (envs.contains(x) && x.0 != key) by {
            lemma_push_contains(init, last, x);
            lemma_push_contains(rest, last, x);
        }
        if keys_distinct(envs) {
            assert(keys_distinct(init)) by {
                assert forall|i: int, j: int| 0 <= i < j < init.len() implies #[trigger] init[i].0
                    != #[trigger] init[j].0 by {
                    assert(init[i] == envs[i] && init[j] == envs[j]);
                }
            }
            if last.0 != key {
                let w = rest.push(last);
                assert forall|i: int, j: int| 0 <= i < j < w.len() implies #[trigger] w[i].0
                    != #[trigger] w[j].0 by {
                    if j == rest.len() {
                        assert(rest.contains(rest[i]));
                        assert(init.contains(rest[i]));
                        let k = choose|k: int| 0 <= k < init.len() && init[k] == rest[i];
                        assert(envs[k] == rest[i]);
                        assert(envs[envs.len() - 1] == last);
                    } else {
                        assert(w[i] == rest[i] && w[j] == rest[j]);
                    }
                }
            }
        }
    }
}

proof fn lemma_with_env_pairs(
    envs: Seq<(Seq<char>, Seq<char>)>,
    pairs: Seq<(Seq<char>, Seq<char>)>,
    home: Option<Seq<char>>,
)
    ensures
        keys_distinct(envs) ==> keys_distinct(with_env_pairs(envs, pairs, home)),
        forall|i: int|
            0 <= i < pairs.len() && last_setting(pairs, i) ==> #[trigger] with_env_pairs(
                envs,
                pairs,
                home,
            ).contains((pairs[i].0, expanded_env_value(pairs[i].1, home))),
        forall|p: (Seq<char>, Seq<char>)|
            envs.contains(p) && not_set(pairs, p.0) ==> #[trigger] with_env_pairs(
                envs,
                pairs,
                home,
            ).contains(p),
    decreases pairs.len(),
{
    if pairs.len() > 0 {
        let init = pairs.drop_last();
        let last = pairs.last();
        lemma_with_env_pairs(envs, init, home);
        let e0 = with_env_pairs(envs, init, home);
        lemma_without_key(e0, last.0);
        let w = without_key(e0, last.0);
        let nv = (last.0, expanded_env_value(last.1, home));
        let e = w.push(nv);
        assert(e == with_env_pairs(envs, pairs, home));
        if keys_distinct(envs) {
            assert forall|i: int, j: int| 0 <= i < j < e.len() implies #[trigger] e[i].0
                != #[trigger] e[j].0 by {
                if j == w.len() {
                    assert(w.contains(w[i]));
                } else {
                    assert(e[i] == w[i] && e[j] == w[j]);
                }
            }
        }
        assert forall|i: int|
            0 <= i < pairs.len() && last_setting(pairs, i) implies #[trigger] e.contains(
            (pairs[i].0, expanded_env_value(pairs[i].1, home)),
        ) by {
            let x = (pairs[i].0, expanded_env_value(pairs[i].1, home));
            lemma_push_contains(w, nv, x);
            if i < pairs.len() - 1 {
                assert(pairs[pairs.len() - 1].0 != pairs[i].0);
                assert(init[i] == pairs[i]);
                assert(last_setting(init, i)) by {
                    assert forall|j: int| i < j < init.len() implies #[trigger] init[j].0
                        != init[i].0 by {
                        assert(init[j] == pairs[j]);
                    }
                }
                assert(e0.contains((init[i].0, expanded_env_value(init[i].1, home))));
            }
        }
        assert forall|p: (Seq<char>, Seq<char>)|
            envs.contains(p) && not_set(pairs, p.0) implies #[trigger] e.contains(p) by {
            lemma_push_contains(w, nv, p);
            assert(pairs[pairs.len() - 1].0 != p.0);
            assert(not_set(init, p.0)) by {
                assert forall|j: int| 0 <= j < init.len() implies #[trigger] init[j].0 != p.0 by {
                    assert(init[j] == pairs[j]);
                }
            }
        }
    }
}

proof fn lemma_without_keys(envs: Seq<(Seq<char>, Seq<char>)>, keys: Seq<Seq<char>>)
    ensures
        forall|x: (Seq<char>, Seq<char>)|
            #[trigger] without_keys(envs, keys).contains(x) <==> (envs.contains(x)
                && !keys.contains(x.0)),
        keys_distinct(envs) ==> keys_distinct(without_keys(envs, keys)),
    decreases keys.len(),
{
    if keys.len() > 0 {
        let init = keys.drop_last();
        let last = keys.last();
        lemma_without_keys(envs, init);
        lemma_without_key(without_keys(envs, init), last);
        assert(keys =~= init.push(last));
        assert forall|x: (Seq<char>, Seq<char>)|
            #[trigger] without_keys(envs, keys).contains(x) <==> (envs.contains(x)
                && !keys.contains(x.0)) by {
            lemma_push_contains(init, last, x.0);
        }
    }
}

proof fn lemma_with_unset_keys(unset: Seq<Seq<char>>, keys: Seq<Seq<char>>)
    ensures
        forall|x: Seq<char>|
            #[trigger] with_unset_keys(unset, keys).contains(x) <==> (unset.contains(x)
                || keys.contains(x)),
        names_distinct(unset) ==> names_distinct(with_unset_keys(unset, keys)),
    decreases keys.len(),
{
    if keys.len() > 0 {
        let init = keys.drop_last();
        let last = keys.last();
        lemma_with_unset_keys(unset, init);
        let u = with_unset_keys(unset, init);
        assert(keys =~= init.push(last));
        assert forall|x: Seq<char>|
            #[trigger] with_unset_keys(unset, keys).contains(x) <==> (unset.contains(x)
                || keys.contains(x)) by {
            lemma_push_contains(init, last, x);
            lemma_push_contains(u, last, x);
        }
        if names_distinct(unset) && !u.contains(last) {
            let w = u.push(last);
            assert forall|i: int, j: int| 0 <= i < j < w.len() implies #[trigger] w[i]
                != #[trigger] w[j] by {
                if j == u.len() {
                    assert(u.contains(u[i]));
                } else {
                    assert(w[i] == u[i] && w[j] == u[j]);
                }
            }
        }
    }
}

/// Applying a manifest's environment to a command in which no name occurs
/// twice (among the variables, and among the removed names): afterwards no
/// name occurs twice in either; every removed name is listed as removed and
/// no variable has it; the removed names are those listed before and those
/// the manifest removes; a name the manifest sets (the last setting counts)
/// and does not remove has the expanded value; a variable whose name the
/// manifest neither sets nor removes stays as it was.
pub proof fn lemma_environment_overrides(
    c: CommandView,
    pairs: Seq<(Seq<char>, Seq<char>)>,
    keys: Seq<Seq<char>>,
    home: Option<Seq<char>>,
)
    requires
        keys_distinct(c.envs),
        names_distinct(c.unset_envs),
    ensures
        keys_distinct(overridden(c, pairs, keys, home).envs),
        names_distinct(overridden(c, pairs, keys, home).unset_envs),
        forall|k: Seq<char>|
            #[trigger] keys.contains(k) ==> overridden(c, pairs, keys, home).unset_envs.contains(k),
        forall|p: (Seq<char>, Seq<char>)|
            #[trigger] overridden(c, pairs, keys, home).envs.contains(p) ==> !keys.contains(p.0),
        forall|k: Seq<char>|
            #[trigger] overridden(c, pairs, keys, home).unset_envs.contains(k) <==> (
            c.unset_envs.contains(k) || keys.contains(k)),
        forall|i: int|
            0 <= i < pairs.len() && last_setting(pairs, i) && !keys.contains(pairs[i].0)
                ==> #[trigger] overridden(c, pairs, keys, home).envs.contains(
                (pairs[i].0, expanded_env_value(pairs[i].1, home)),
            ),
        forall|p: (Seq<char>, Seq<char>)|
            c.envs.contains(p) && not_set(pairs, p.0) && !keys.contains(p.0)
                ==> #[trigger] overridden(c, pairs, keys, home).envs.contains(p),
{
    let e = with_env_pairs(c.envs, pairs, home);
    lemma_with_env_pairs(c.envs, pairs, home);
    lemma_without_keys(e, keys);
    lemma_with_unset_keys(c.unset_envs, keys);
    assert forall|i: int|
        0 <= i < pairs.len() && last_setting(pairs, i) && !keys.contains(pairs[i].0)
            implies #[trigger] overridden(c, pairs, keys, home).envs.contains(
        (pairs[i].0, expanded_env_value(pairs[i].1, home)),
    ) by {
        assert(e.contains((pairs[i].0, expanded_env_value(pairs[i].1, home))));
    }
    assert forall|p: (Seq<char>, Seq<char>)|
        c.envs.contains(p) && not_set(pairs, p.0) && !keys.contains(p.0)
            implies #[trigger] overridden(c, pairs, keys, home).envs.contains(p) by {
        assert(e.contains(p));
    }
}

} // verus!
