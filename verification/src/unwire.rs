//! Reading values back from their JSON images.

use vstd::prelude::*;
use vstd::string::*;

use crate::json::{
    entry, lemma_list_view, lemma_object_view, open_entry, opened_entry, Entries, Json, JsonView,
};
use crate::mapping::local_shell_arguments_of;
use crate::protocol::{
    EnvVar, EnvVarView, LocalShellAction, LocalShellActionView, LocalShellExecAction,
    LocalShellExecActionView, WebSearchAction, WebSearchActionView,
};
use crate::text::{parse_u64, parsed_u64, text_eq};
use crate::wire::{
    and_opt_list, and_opt_text, env_entries, list_wire, tagged, text_or_null,
    web_search_action_entries,
};

verus! {

// ---------------------------------------------------------------------------
// Entries
// ---------------------------------------------------------------------------

/// The entries of a value that is an object; none of another.
pub open spec fn entries_of(j: JsonView) -> Entries {
    match j {
        JsonView::Object(e) => e,
        _ => Seq::empty(),
    }
}

/// Where the first entry named `key` stands, from `from` on; the number of
/// entries when there is none.
pub open spec fn place_from(entries: Entries, key: Seq<char>, from: int) -> int
    decreases entries.len() - from,
{
    if from >= entries.len() {
        entries.len() as int
    } else if entries[from].0 == key {
        from
    } else {
        place_from(entries, key, from + 1)
    }
}

/// The entries but the one named `key`. The last entry takes its place.
pub open spec fn without_entry(entries: Entries, key: Seq<char>) -> Entries {
    let k = place_from(entries, key, 0);
    if k < entries.len() {
        entries.update(k, entries.last()).drop_last()
    } else {
        entries
    }
}

/// A copy of the entries but the one named `key`. The last entry takes its
/// place.
pub fn copy_without_entry(entries: &Vec<(String, Json)>, key: &str) -> (r: Vec<(String, Json)>)
    ensures
        r.deep_view() == without_entry(entries.deep_view(), key@),
{
    let ghost view = entries.deep_view();
    let ghost whole = without_entry(view, key@);
    let mut k: usize = 0;
    while k < entries.len() && !text_eq(entries[k].0.as_str(), key)
        invariant
            k <= entries.len(),
            view == entries.deep_view(),
            place_from(view, key@, 0) == place_from(view, key@, k as int),
        decreases entries.len() - k,
    {
        assert(view[k as int] == (entries@[k as int].0@, entries@[k as int].1@));
        k = k + 1;
    }
    assert(k < entries.len() ==> view[k as int] == (entries@[k as int].0@, entries@[k as int].1@));
    let end: usize = if k < entries.len() {
        entries.len() - 1
    } else {
        entries.len()
    };
    let mut out: Vec<(String, Json)> = Vec::new();
    assert(out.deep_view() =~= whole.take(0));
    let mut i: usize = 0;
    while i < end
        invariant
            i <= end,
            end == whole.len(),
            end <= entries.len(),
            k < entries.len() ==> end == entries.len() - 1 && whole == view.update(
                k as int,
                view.last(),
            ).drop_last(),
            k >= entries.len() ==> whole == view,
            view == entries.deep_view(),
            out.deep_view() == whole.take(i as int),
        decreases end - i,
    {
        let ghost before = out.deep_view();
        let from: usize = if i == k {
            entries.len() - 1
        } else {
            i
        };
        assert(view[from as int] == (entries@[from as int].0@, entries@[from as int].1@));
        assert(whole[i as int] == view[from as int]);
        out.push((entries[from].0.clone(), entries[from].1.clone()));
        assert(out.deep_view() =~= before.push(view[from as int]));
        assert(whole.take(i + 1) =~= whole.take(i as int).push(whole[i as int]));
        i = i + 1;
    }
    assert(whole.take(i as int) =~= whole);
    out
}

/// An entry that was added last is read where none stood before.
pub proof fn lemma_entry_push(e: Entries, name: Seq<char>, value: JsonView, key: Seq<char>)
    ensures
        entry(e.push((name, value)), key) == (match entry(e, key) {
            Some(v) => Some(v),
            None => if name == key {
                Some(value)
            } else {
                None
            },
        }),
    decreases e.len(),
{
    let p = e.push((name, value));
    if e.len() == 0 {
        assert(p.drop_first() =~= Seq::<(Seq<char>, JsonView)>::empty());
        assert(entry(Seq::<(Seq<char>, JsonView)>::empty(), key) is None);
    } else {
        assert(p.drop_first() =~= e.drop_first().push((name, value)));
        lemma_entry_push(e.drop_first(), name, value, key);
    }
}

proof fn lemma_place_absent(e: Entries, key: Seq<char>, from: int)
    requires
        0 <= from <= e.len(),
        forall|i: int| 0 <= i < e.len() ==> (#[trigger] e[i]).0 != key,
    ensures
        place_from(e, key, from) == e.len(),
    decreases e.len() - from,
{
    if from < e.len() {
        lemma_place_absent(e, key, from + 1);
    }
}

/// Entries none of which is named `key` stay as they are.
pub proof fn lemma_without_absent(e: Entries, key: Seq<char>)
    requires
        forall|i: int| 0 <= i < e.len() ==> (#[trigger] e[i]).0 != key,
    ensures
        without_entry(e, key) == e,
{
    lemma_place_absent(e, key, 0);
}

// ---------------------------------------------------------------------------
// Fields
// ---------------------------------------------------------------------------

/// A field that may be absent or `null`, and is a string otherwise; `None` when
/// it is something else.
pub open spec fn opt_text_field(e: Entries, key: Seq<char>) -> Option<Option<Seq<char>>> {
    match opened_entry(e, key) {
        None => Some(None),
        Some(JsonView::Null) => Some(None),
        Some(JsonView::Text(s)) => Some(Some(s)),
        Some(_) => None,
    }
}

fn read_opt_text(e: &Vec<(String, Json)>, key: &str) -> (r: Option<Option<String>>)
    ensures
        r.deep_view() == opt_text_field(e.deep_view(), key@),
{
    match open_entry(e, key) {
        None => Some(None),
        Some(Json::Null) => Some(None),
        Some(Json::Text(s)) => Some(Some(s)),
        Some(_) => None,
    }
}

/// A field that may be absent or `null`, and is a whole number that is not
/// negative otherwise.
pub open spec fn opt_count_field(e: Entries, key: Seq<char>) -> Option<Option<u64>> {
    match opened_entry(e, key) {
        None => Some(None),
        Some(JsonView::Null) => Some(None),
        Some(JsonView::Int(n)) => if 0 <= n <= u64::MAX {
            Some(Some(n as u64))
        } else {
            None
        },
        Some(JsonView::Raw(s)) => match parsed_u64(s) {
            Some(n) => Some(Some(n)),
            None => None,
        },
        Some(_) => None,
    }
}

fn read_opt_count(e: &Vec<(String, Json)>, key: &str) -> (r: Option<Option<u64>>)
    ensures
        r == opt_count_field(e.deep_view(), key@),
{
    match open_entry(e, key) {
        None => Some(None),
        Some(Json::Null) => Some(None),
        Some(Json::Int(n)) => {
            if 0 <= n && n <= u64::MAX as i128 {
                Some(Some(n as u64))
            } else {
                None
            }
        },
        Some(Json::Raw(s)) => match parse_u64(s.as_str()) {
            Some(n) => Some(Some(n)),
            None => None,
        },
        Some(_) => None,
    }
}

/// The strings of a list that holds nothing else.
pub open spec fn all_texts(v: Seq<JsonView>) -> Option<Seq<Seq<char>>>
    decreases v.len(),
{
    if v.len() == 0 {
        Some(Seq::empty())
    } else {
        match (all_texts(v.drop_last()), v.last()) {
            (Some(s), JsonView::Text(t)) => Some(s.push(t)),
            _ => None,
        }
    }
}

fn read_texts(v: &Vec<Json>) -> (r: Option<Vec<String>>)
    ensures
        r.deep_view() == all_texts(v.deep_view()),
{
    let ghost view = v.deep_view();
    let mut out: Vec<String> = Vec::new();
    assert(out.deep_view() =~= Seq::<Seq<char>>::empty());
    let mut i: usize = 0;
    while i < v.len()
        invariant
            i <= v.len(),
            view == v.deep_view(),
            all_texts(view.take(i as int)) == Some(out.deep_view()),
        decreases v.len() - i,
    {
        let ghost before = out.deep_view();
        assert(view[i as int] == v@[i as int]@);
        assert(view.take(i + 1).drop_last() =~= view.take(i as int));
        match &v[i] {
            Json::Text(s) => {
                out.push(s.clone());
                assert(out.deep_view() =~= before.push(s@));
            },
            _ => {
                proof {
                    lemma_all_texts_fail(view, i as int);
                }
                return None;
            },
        }
        i = i + 1;
    }
    assert(view.take(i as int) =~= view);
    Some(out)
}

/// A list with something else than a string in it is no list of strings.
proof fn lemma_all_texts_fail(v: Seq<JsonView>, i: int)
    requires
        0 <= i < v.len(),
        !(v[i] is Text),
    ensures
        all_texts(v) is None,
    decreases v.len(),
{
    if i < v.len() - 1 {
        lemma_all_texts_fail(v.drop_last(), i);
    }
}

proof fn lemma_all_texts_of_wire(s: Seq<Seq<char>>)
    ensures
        all_texts(list_wire::<String>(s)->List_0) == Some(s),
    decreases s.len(),
{
    let w = list_wire::<String>(s)->List_0;
    if s.len() > 0 {
        lemma_all_texts_of_wire(s.drop_last());
        assert(w.drop_last() =~= list_wire::<String>(s.drop_last())->List_0);
        assert(s.drop_last().push(s.last()) =~= s);
    } else {
        assert(s =~= Seq::<Seq<char>>::empty());
    }
}

/// A field that may be absent or `null`, and is a list of strings otherwise.
pub open spec fn opt_texts_field(e: Entries, key: Seq<char>) -> Option<Option<Seq<Seq<char>>>> {
    match opened_entry(e, key) {
        None => Some(None),
        Some(JsonView::Null) => Some(None),
        Some(JsonView::List(v)) => match all_texts(v) {
            Some(s) => Some(Some(s)),
            None => None,
        },
        Some(_) => None,
    }
}

fn read_opt_texts(e: &Vec<(String, Json)>, key: &str) -> (r: Option<Option<Vec<String>>>)
    ensures
        r.deep_view() == opt_texts_field(e.deep_view(), key@),
{
    broadcast use lemma_list_view;

    match open_entry(e, key) {
        None => Some(None),
        Some(Json::Null) => Some(None),
        Some(Json::List(v)) => match read_texts(&v) {
            Some(s) => Some(Some(s)),
            None => None,
        },
        Some(_) => None,
    }
}

/// The variables that an object of strings holds.
pub open spec fn all_vars(e: Entries) -> Option<Seq<EnvVarView>>
    decreases e.len(),
{
    if e.len() == 0 {
        Some(Seq::empty())
    } else {
        match (all_vars(e.drop_last()), e.last().1) {
            (Some(s), JsonView::Text(t)) => Some(s.push(EnvVarView { name: e.last().0, value: t })),
            _ => None,
        }
    }
}

fn read_vars(e: &Vec<(String, Json)>) -> (r: Option<Vec<EnvVar>>)
    ensures
        r.deep_view() == all_vars(e.deep_view()),
{
    let ghost view = e.deep_view();
    let mut out: Vec<EnvVar> = Vec::new();
    assert(out.deep_view() =~= Seq::<EnvVarView>::empty());
    let mut i: usize = 0;
    while i < e.len()
        invariant
            i <= e.len(),
            view == e.deep_view(),
            all_vars(view.take(i as int)) == Some(out.deep_view()),
        decreases e.len() - i,
    {
        let ghost before = out.deep_view();
        assert(view[i as int] == (e@[i as int].0@, e@[i as int].1@));
        assert(view.take(i + 1).drop_last() =~= view.take(i as int));
        match &e[i].1 {
            Json::Text(s) => {
                let var = EnvVar { name: e[i].0.clone(), value: s.clone() };
                let ghost var_view = var@;
                out.push(var);
                assert(out.deep_view() =~= before.push(var_view));
            },
            _ => {
                proof {
                    lemma_all_vars_fail(view, i as int);
                }
                return None;
            },
        }
        i = i + 1;
    }
    assert(view.take(i as int) =~= view);
    Some(out)
}

proof fn lemma_all_vars_fail(e: Entries, i: int)
    requires
        0 <= i < e.len(),
        !(e[i].1 is Text),
    ensures
        all_vars(e) is None,
    decreases e.len(),
{
    if i < e.len() - 1 {
        lemma_all_vars_fail(e.drop_last(), i);
    }
}

proof fn lemma_all_vars_of_wire(env: Seq<EnvVarView>)
    ensures
        all_vars(env_entries(env)) == Some(env),
    decreases env.len(),
{
    let w = env_entries(env);
    if env.len() > 0 {
        lemma_all_vars_of_wire(env.drop_last());
        assert(w.drop_last() =~= env_entries(env.drop_last()));
        assert(env.drop_last().push(env.last()) =~= env);
    } else {
        assert(env =~= Seq::<EnvVarView>::empty());
    }
}

/// A field that may be absent or `null`, and holds variables otherwise.
pub open spec fn opt_vars_field(e: Entries, key: Seq<char>) -> Option<Option<Seq<EnvVarView>>> {
    match opened_entry(e, key) {
        None => Some(None),
        Some(JsonView::Null) => Some(None),
        Some(JsonView::Object(v)) => match all_vars(v) {
            Some(s) => Some(Some(s)),
            None => None,
        },
        Some(_) => None,
    }
}

fn read_opt_vars(e: &Vec<(String, Json)>, key: &str) -> (r: Option<Option<Vec<EnvVar>>>)
    ensures
        r.deep_view() == opt_vars_field(e.deep_view(), key@),
{
    broadcast use lemma_object_view;

    match open_entry(e, key) {
        None => Some(None),
        Some(Json::Null) => Some(None),
        Some(Json::Object(v)) => match read_vars(&v) {
            Some(s) => Some(Some(s)),
            None => None,
        },
        Some(_) => None,
    }
}

// ---------------------------------------------------------------------------
// Actions
// ---------------------------------------------------------------------------

/// The shell command that the entries describe.
pub open spec fn exec_action_in(e: Entries) -> Option<LocalShellExecActionView> {
    match (
        opt_texts_field(e, "command"@),
        opt_count_field(e, "timeout_ms"@),
        opt_text_field(e, "working_directory"@),
        opt_vars_field(e, "env"@),
        opt_text_field(e, "user"@),
    ) {
        (
            Some(Some(command)),
            Some(timeout_ms),
            Some(working_directory),
            Some(env),
            Some(user),
        ) => Some(
            LocalShellExecActionView { command, timeout_ms, working_directory, env, user },
        ),
        _ => None,
    }
}

fn read_exec_action(e: &Vec<(String, Json)>) -> (r: Option<LocalShellExecAction>)
    ensures
        r.deep_view() == exec_action_in(e.deep_view()),
{
    match (
        read_opt_texts(e, "command"),
        read_opt_count(e, "timeout_ms"),
        read_opt_text(e, "working_directory"),
        read_opt_vars(e, "env"),
        read_opt_text(e, "user"),
    ) {
        (
            Some(Some(command)),
            Some(timeout_ms),
            Some(working_directory),
            Some(env),
            Some(user),
        ) => Some(LocalShellExecAction { command, timeout_ms, working_directory, env, user }),
        _ => None,
    }
}

/// A shell command that does nothing.
pub open spec fn no_command() -> LocalShellExecActionView {
    LocalShellExecActionView {
        command: Seq::empty(),
        timeout_ms: None,
        working_directory: None,
        env: None,
        user: None,
    }
}

/// The shell action that the arguments of a call describe; one that does
/// nothing when they describe none.
pub open spec fn shell_action_of(arguments: Entries) -> LocalShellActionView {
    let e = without_entry(arguments, "__hostRaw"@);
    let of_exec = match opened_entry(e, "type"@) {
        None => true,
        Some(JsonView::Text(tag)) => tag == "exec"@,
        Some(_) => false,
    };
    LocalShellActionView::Exec(
        if of_exec {
            match exec_action_in(e) {
                Some(x) => x,
                None => no_command(),
            }
        } else {
            no_command()
        },
    )
}

/// The shell action that the arguments of a call describe; one that does
/// nothing when they describe none.
pub fn read_shell_action(arguments: &Vec<(String, Json)>) -> (r: LocalShellAction)
    ensures
        r@ == shell_action_of(arguments.deep_view()),
{
    let e = copy_without_entry(arguments, "__hostRaw");
    let of_exec = match open_entry(&e, "type") {
        None => true,
        Some(Json::Text(tag)) => text_eq(tag.as_str(), "exec"),
        Some(_) => false,
    };
    if of_exec {
        if let Some(x) = read_exec_action(&e) {
            return LocalShellAction::Exec(x);
        }
    }
    let command: Vec<String> = Vec::new();
    assert(command.deep_view() =~= Seq::<Seq<char>>::empty());
    LocalShellAction::Exec(
        LocalShellExecAction {
            command,
            timeout_ms: None,
            working_directory: None,
            env: None,
            user: None,
        },
    )
}

/// The web search action that some entries describe.
pub open spec fn search_action_in(e: Entries) -> Option<WebSearchActionView> {
    match opened_entry(e, "type"@) {
        Some(JsonView::Text(tag)) => if tag == "search"@ {
            match (opt_text_field(e, "query"@), opt_texts_field(e, "queries"@)) {
                (Some(query), Some(queries)) => Some(
                    WebSearchActionView::Search { query, queries },
                ),
                _ => None,
            }
        } else if tag == "open_page"@ {
            match opt_text_field(e, "url"@) {
                Some(url) => Some(WebSearchActionView::OpenPage { url }),
                None => None,
            }
        } else if tag == "find_in_page"@ {
            match (opt_text_field(e, "url"@), opt_text_field(e, "pattern"@)) {
                (Some(url), Some(pattern)) => Some(
                    WebSearchActionView::FindInPage { url, pattern },
                ),
                _ => None,
            }
        } else {
            Some(WebSearchActionView::Other)
        },
        _ => None,
    }
}

/// The web search action that the arguments of a call describe.
pub open spec fn search_action_of(arguments: Entries) -> Option<WebSearchActionView> {
    search_action_in(without_entry(arguments, "__hostRaw"@))
}

/// The web search action that the arguments of a call describe.
pub fn read_search_action(arguments: &Vec<(String, Json)>) -> (r: Option<WebSearchAction>)
    ensures
        r.deep_view() == search_action_of(arguments.deep_view()),
{
    let e = copy_without_entry(arguments, "__hostRaw");
    match open_entry(&e, "type") {
        Some(Json::Text(tag)) => if text_eq(tag.as_str(), "search") {
            match (read_opt_text(&e, "query"), read_opt_texts(&e, "queries")) {
                (Some(query), Some(queries)) => Some(WebSearchAction::Search { query, queries }),
                _ => None,
            }
        } else if text_eq(tag.as_str(), "open_page") {
            match read_opt_text(&e, "url") {
                Some(url) => Some(WebSearchAction::OpenPage { url }),
                None => None,
            }
        } else if text_eq(tag.as_str(), "find_in_page") {
            match (read_opt_text(&e, "url"), read_opt_text(&e, "pattern")) {
                (Some(url), Some(pattern)) => Some(WebSearchAction::FindInPage { url, pattern }),
                _ => None,
            }
        } else {
            Some(WebSearchAction::Other)
        },
        _ => None,
    }
}

// ---------------------------------------------------------------------------
// Laws
// ---------------------------------------------------------------------------

/// A shell action that was stored as the arguments of a call reads back as it was.
pub proof fn shell_action_reads_back(action: LocalShellActionView)
    ensures
        shell_action_of(local_shell_arguments_of(action)) == action,
{
    reveal_strlit("command");
    reveal_strlit("timeout_ms");
    reveal_strlit("working_directory");
    reveal_strlit("env");
    reveal_strlit("user");
    reveal_strlit("type");
    reveal_strlit("__hostRaw");
    let x = action->Exec_0;
    let none = Seq::<(Seq<char>, JsonView)>::empty();
    let timeout = match x.timeout_ms {
        Some(n) => JsonView::Int(n as int),
        None => JsonView::Null,
    };
    let env = match x.env {
        Some(v) => JsonView::Object(env_entries(v)),
        None => JsonView::Null,
    };
    let e1 = none.push(("command"@, list_wire::<String>(x.command)));
    let e2 = e1.push(("timeout_ms"@, timeout));
    let e3 = e2.push(("working_directory"@, text_or_null(x.working_directory)));
    let e4 = e3.push(("env"@, env));
    let e5 = e4.push(("user"@, text_or_null(x.user)));
    assert(local_shell_arguments_of(action) == e5);
    assert("type"@[0] != "user"@[0]);
    assert forall|i: int| 0 <= i < e5.len() implies (#[trigger] e5[i]).0 != "__hostRaw"@ by {
        assert("command"@.len() == 7 && "__hostRaw"@.len() == 9);
    }
    lemma_without_absent(e5, "__hostRaw"@);
    assert forall|key: Seq<char>| entry(e5, key) == (if key == "command"@ {
        Some(list_wire::<String>(x.command))
    } else if key == "timeout_ms"@ {
        Some(timeout)
    } else if key == "working_directory"@ {
        Some(text_or_null(x.working_directory))
    } else if key == "env"@ {
        Some(env)
    } else if key == "user"@ {
        Some(text_or_null(x.user))
    } else {
        None
    }) by {
        assert(entry(none, key) is None);
        lemma_entry_push(none, "command"@, list_wire::<String>(x.command), key);
        lemma_entry_push(e1, "timeout_ms"@, timeout, key);
        lemma_entry_push(e2, "working_directory"@, text_or_null(x.working_directory), key);
        lemma_entry_push(e3, "env"@, env, key);
        lemma_entry_push(e4, "user"@, text_or_null(x.user), key);
    }
    lemma_all_texts_of_wire(x.command);
    if let Some(v) = x.env {
        lemma_all_vars_of_wire(v);
    }
    assert("command"@.len() == 7 && "timeout_ms"@.len() == 10 && "working_directory"@.len() == 17
        && "env"@.len() == 3 && "user"@.len() == 4 && "type"@.len() == 4);
    assert(entry(e5, "command"@) == Some(list_wire::<String>(x.command)));
    assert(opt_texts_field(e5, "command"@) == Some(Some(x.command)));
    assert(opt_count_field(e5, "timeout_ms"@) == Some(x.timeout_ms));
    assert(opt_text_field(e5, "working_directory"@) == Some(x.working_directory));
    assert(opt_vars_field(e5, "env"@) == Some(x.env));
    assert(opt_text_field(e5, "user"@) == Some(x.user));
    assert(entry(e5, "type"@) is None);
    assert(exec_action_in(e5) == Some(x));
}

/// A web search action that was stored as the arguments of a call reads back
/// as it was.
pub proof fn search_action_reads_back(action: WebSearchActionView)
    ensures
        search_action_of(web_search_action_entries(action)) == Some(action),
{
    reveal_strlit("type");
    reveal_strlit("query");
    reveal_strlit("queries");
    reveal_strlit("url");
    reveal_strlit("pattern");
    reveal_strlit("__hostRaw");
    reveal_strlit("search");
    reveal_strlit("open_page");
    reveal_strlit("find_in_page");
    reveal_strlit("other");
    let e = web_search_action_entries(action);
    let none = Seq::<(Seq<char>, JsonView)>::empty();
    assert("__hostRaw"@.len() == 9 && "type"@.len() == 4 && "query"@.len() == 5 && "queries"@.len()
        == 7 && "url"@.len() == 3 && "pattern"@.len() == 7);
    assert forall|i: int| 0 <= i < e.len() implies (#[trigger] e[i]).0 != "__hostRaw"@ by {
    }
    lemma_without_absent(e, "__hostRaw"@);
    match action {
        WebSearchActionView::Search { query, queries } => {
            let e0 = tagged("search"@);
            let e1 = and_opt_text(e0, "query"@, query);
            lemma_tagged("search"@, "type"@);
            lemma_tagged("search"@, "query"@);
            lemma_tagged("search"@, "queries"@);
            lemma_and_opt_text(e0, "query"@, query, "type"@);
            lemma_and_opt_text(e0, "query"@, query, "query"@);
            lemma_and_opt_text(e0, "query"@, query, "queries"@);
            lemma_and_opt_texts(e1, "queries"@, queries, "type"@);
            lemma_and_opt_texts(e1, "queries"@, queries, "query"@);
            lemma_and_opt_texts(e1, "queries"@, queries, "queries"@);
            if let Some(v) = queries {
                lemma_all_texts_of_wire(v);
            }
        },
        WebSearchActionView::OpenPage { url } => {
            let e0 = tagged("open_page"@);
            assert("open_page"@.len() == 9 && "search"@.len() == 6);
            lemma_tagged("open_page"@, "type"@);
            lemma_tagged("open_page"@, "url"@);
            lemma_and_opt_text(e0, "url"@, url, "type"@);
            lemma_and_opt_text(e0, "url"@, url, "url"@);
        },
        WebSearchActionView::FindInPage { url, pattern } => {
            let e0 = tagged("find_in_page"@);
            let e1 = and_opt_text(e0, "url"@, url);
            assert("open_page"@.len() == 9 && "search"@.len() == 6 && "find_in_page"@.len() == 12);
            lemma_tagged("find_in_page"@, "type"@);
            lemma_tagged("find_in_page"@, "url"@);
            lemma_tagged("find_in_page"@, "pattern"@);
            lemma_and_opt_text(e0, "url"@, url, "type"@);
            lemma_and_opt_text(e0, "url"@, url, "url"@);
            lemma_and_opt_text(e0, "url"@, url, "pattern"@);
            lemma_and_opt_text(e1, "pattern"@, pattern, "type"@);
            lemma_and_opt_text(e1, "pattern"@, pattern, "url"@);
            lemma_and_opt_text(e1, "pattern"@, pattern, "pattern"@);
        },
        WebSearchActionView::Other => {
            assert("other"@.len() == 5 && "open_page"@.len() == 9 && "search"@.len() == 6
                && "find_in_page"@.len() == 12);
            lemma_tagged("other"@, "type"@);
        },
    }
}

proof fn lemma_tagged(tag: Seq<char>, key: Seq<char>)
    ensures
        entry(tagged(tag), key) == (if key == "type"@ {
            Some(JsonView::Text(tag))
        } else {
            None
        }),
{
    let none = Seq::<(Seq<char>, JsonView)>::empty();
    assert(entry(none, key) is None);
    lemma_entry_push(none, "type"@, JsonView::Text(tag), key);
    assert(tagged(tag) =~= none.push(("type"@, JsonView::Text(tag))));
}

proof fn lemma_and_opt_text(e: Entries, name: Seq<char>, value: Option<Seq<char>>, key: Seq<char>)
    ensures
        entry(and_opt_text(e, name, value), key) == (match entry(e, key) {
            Some(v) => Some(v),
            None => if name == key && value is Some {
                Some(JsonView::Text(value->0))
            } else {
                None
            },
        }),
{
    if let Some(s) = value {
        lemma_entry_push(e, name, JsonView::Text(s), key);
    }
}

proof fn lemma_and_opt_texts(
    e: Entries,
    name: Seq<char>,
    value: Option<Seq<Seq<char>>>,
    key: Seq<char>,
)
    ensures
        entry(and_opt_list::<String>(e, name, value), key) == (match entry(e, key) {
            Some(v) => Some(v),
            None => if name == key && value is Some {
                Some(list_wire::<String>(value->0))
            } else {
                None
            },
        }),
{
    if let Some(s) = value {
        lemma_entry_push(e, name, list_wire::<String>(s), key);
    }
}

} // verus!
