//! Reload actions from bindings.kdl.
use vstd::prelude::*;
use crate::kdl_doc::{kdl_document, parse_kdl, KdlEntryModel, KdlNodeModel};
use crate::text::{
    chars_eq_str, copy_chars, from_chars, opt_str_view, push_chars, push_str, spec_strip_prefix,
    strings_view, strip_prefix, to_chars,
};

verus! {

/// How to make an application reload its configuration.
pub enum ReloadAction {
    /// Send `signal` to the processes named `process`.
    Signal { process: String, signal: String },
    /// Run a command.
    Command { cmd: String, args: Vec<String> },
    /// Touch a file that the application watches.
    Touch { path: String },
}

/// A reload action by its texts.
pub enum ActionView {
    Signal(Seq<char>, Seq<char>),
    Command(Seq<char>, Seq<Seq<char>>),
    Touch(Seq<char>),
}


impl ReloadAction {
    pub open spec fn view_of(self) -> ActionView {
        match self {
            ReloadAction::Signal { process, signal } => ActionView::Signal(process@, signal@),
            ReloadAction::Command { cmd, args } => ActionView::Command(cmd@, strings_view(args@)),
            ReloadAction::Touch { path } => ActionView::Touch(path@),
        }
    }
}

pub open spec fn actions_view(v: Seq<ReloadAction>) -> Seq<ActionView> {
    v.map_values(|a: ReloadAction| a.view_of())
}

/// `~/rest` with `home` for `~`, where `home` is known; `s` otherwise.
pub open spec fn spec_expand_tilde(s: Seq<char>, home: Option<Seq<char>>) -> Seq<char> {
    match (spec_strip_prefix(s, "~/"@), home) {
        (Some(rest), Some(h)) => h + seq!['/'] + rest,
        _ => s,
    }
}

/// The first node named `name`.
pub open spec fn doc_get(nodes: Seq<KdlNodeModel>, name: Seq<char>) -> Option<KdlNodeModel>
    decreases nodes.len(),
{
    if nodes.len() == 0 {
        None
    } else if nodes[0].name@ == name {
        Some(nodes[0])
    } else {
        doc_get(nodes.drop_first(), name)
    }
}

/// The string value of the last property named `key`, if that value is a
/// string.
pub open spec fn prop_string(entries: Seq<KdlEntryModel>, key: Seq<char>) -> Option<Seq<char>>
    decreases entries.len(),
{
    if entries.len() == 0 {
        None
    } else {
        let e = entries.last();
        match e.name {
            Some(n) => if n@ == key {
                match e.text {
                    Some(t) => Some(t@),
                    None => None,
                }
            } else {
                prop_string(entries.drop_last(), key)
            },
            None => prop_string(entries.drop_last(), key),
        }
    }
}

/// The string values of all entries, in order, each with `~` expanded.
pub open spec fn entry_strings(entries: Seq<KdlEntryModel>, home: Option<Seq<char>>) -> Seq<
    Seq<char>,
>
    decreases entries.len(),
{
    if entries.len() == 0 {
        seq![]
    } else {
        let rest = entry_strings(entries.drop_last(), home);
        match entries.last().text {
            Some(t) => rest.push(spec_expand_tilde(t@, home)),
            None => rest,
        }
    }
}

/// The action a strategy node under `reload` describes, if complete.
pub open spec fn strategy_action(s: KdlNodeModel, home: Option<Seq<char>>) -> Option<ActionView> {
    if s.name@ == "signal"@ {
        match (prop_string(s.entries@, "process"@), prop_string(s.entries@, "signal"@)) {
            (Some(p), Some(g)) => Some(ActionView::Signal(p, g)),
            _ => None,
        }
    } else if s.name@ == "command"@ {
        match s.children {
            Some(c) => match doc_get(c@, "argv"@) {
                Some(argv) => {
                    let args = entry_strings(argv.entries@, home);
                    if args.len() > 0 {
                        Some(ActionView::Command(args[0], args.drop_first()))
                    } else {
                        None
                    }
                },
                None => None,
            },
            None => None,
        }
    } else if s.name@ == "touch"@ {
        match prop_string(s.entries@, "path"@) {
            Some(p) => Some(ActionView::Touch(spec_expand_tilde(p, home))),
            None => None,
        }
    } else {
        None
    }
}

/// The actions of a list of strategy nodes, in order.
pub open spec fn strategies_actions(st: Seq<KdlNodeModel>, home: Option<Seq<char>>) -> Seq<
    ActionView,
>
    decreases st.len(),
{
    if st.len() == 0 {
        seq![]
    } else {
        let rest = strategies_actions(st.drop_last(), home);
        match strategy_action(st.last(), home) {
            Some(a) => rest.push(a),
            None => rest,
        }
    }
}

/// The actions of a top-level node: for a `bind` node, those of the
/// strategies under its first `reload` child.
pub open spec fn bind_actions(n: KdlNodeModel, home: Option<Seq<char>>) -> Seq<ActionView> {
    if n.name@ != "bind"@ {
        seq![]
    } else {
        match n.children {
            Some(c) => match doc_get(c@, "reload"@) {
                Some(r) => match r.children {
                    Some(st) => strategies_actions(st@, home),
                    None => seq![],
                },
                None => seq![],
            },
            None => seq![],
        }
    }
}

/// The actions of all top-level nodes, in order.
pub open spec fn doc_actions(nodes: Seq<KdlNodeModel>, home: Option<Seq<char>>) -> Seq<ActionView>
    decreases nodes.len(),
{
    if nodes.len() == 0 {
        seq![]
    } else {
        doc_actions(nodes.drop_last(), home) + bind_actions(nodes.last(), home)
    }
}

/// The reload actions of bindings.kdl (`None` where it could not be read):
/// none where it is no KDL document.
pub open spec fn spec_parse_reload_actions(content: Option<Seq<char>>, home: Option<Seq<char>>) -> Option<
    Seq<ActionView>,
> {
    match content {
        Some(c) => match kdl_document(c) {
            Some(nodes) => Some(doc_actions(nodes, home)),
            None => None,
        },
        None => None,
    }
}

/// Replaces a leading `~/` with the home directory, where that is known.
pub fn expand_tilde(s: &str, home: Option<&str>) -> (r: String)
    ensures
        r@ == spec_expand_tilde(s@, opt_str_view(home)),
{
    let c = to_chars(s);
    if let Some(rest) = strip_prefix(c.as_slice(), "~/") {
        if let Some(h) = home {
            let mut out = to_chars(h);
            out.push('/');
            push_chars(&mut out, rest.as_slice());
            return from_chars(out.as_slice());
        }
    }
    s.to_owned()
}

fn doc_get_exec<'a>(nodes: &'a Vec<KdlNodeModel>, name: &str) -> (r: Option<&'a KdlNodeModel>)
    ensures
        r matches Some(n) ==> doc_get(nodes@, name@) == Some(*n),
        r is None ==> doc_get(nodes@, name@) is None,
{
    let mut i: usize = 0;
    assert(nodes@.skip(0) =~= nodes@);
    while i < nodes.len()
        invariant
            i <= nodes@.len(),
            doc_get(nodes@, name@) == doc_get(nodes@.skip(i as int), name@),
        decreases nodes.len() - i,
    {
        assert(nodes@.skip(i as int).drop_first() =~= nodes@.skip(i + 1));
        assert(nodes@.skip(i as int)[0] == nodes@[i as int]);
        let n = to_chars(nodes[i].name.as_str());
        if chars_eq_str(n.as_slice(), name) {
            return Some(&nodes[i]);
        }
        i += 1;
    }
    None
}

fn prop_string_exec(entries: &Vec<KdlEntryModel>, key: &str) -> (r: Option<String>)
    ensures
        match r {
            Some(s) => prop_string(entries@, key@) == Some(s@),
            None => prop_string(entries@, key@) is None,
        },
{
    let mut i: usize = entries.len();
    assert(entries@.take(entries@.len() as int) =~= entries@);
    while i > 0
        invariant
            i <= entries@.len(),
            prop_string(entries@, key@) == prop_string(entries@.take(i as int), key@),
        decreases i,
    {
        assert(entries@.take(i as int).drop_last() =~= entries@.take(i - 1));
        assert(entries@.take(i as int).last() == entries@[i - 1]);
        let e = &entries[i - 1];
        if let Some(n) = &e.name {
            let nc = to_chars(n.as_str());
            if chars_eq_str(nc.as_slice(), key) {
                return match &e.text {
                    Some(t) => Some(t.clone()),
                    None => None,
                };
            }
        }
        i -= 1;
    }
    None
}

fn entry_strings_exec(entries: &Vec<KdlEntryModel>, home: Option<&str>) -> (r: Vec<String>)
    ensures
        strings_view(r@) == entry_strings(entries@, opt_str_view(home)),
{
    let mut r: Vec<String> = Vec::new();
    let mut i: usize = 0;
    while i < entries.len()
        invariant
            i <= entries@.len(),
            strings_view(r@) == entry_strings(entries@.take(i as int), opt_str_view(home)),
        decreases entries.len() - i,
    {
        assert(entries@.take(i + 1).drop_last() =~= entries@.take(i as int));
        assert(entries@.take(i + 1).last() == entries@[i as int]);
        if let Some(t) = &entries[i].text {
            let ghost before = strings_view(r@);
            r.push(expand_tilde(t.as_str(), home));
            assert(strings_view(r@) =~= before.push(spec_expand_tilde(t@, opt_str_view(home))));
        }
        i += 1;
    }
    assert(entries@.take(i as int) =~= entries@);
    r
}

fn strategy_action_exec(s: &KdlNodeModel, home: Option<&str>) -> (r: Option<ReloadAction>)
    ensures
        match r {
            Some(a) => strategy_action(*s, opt_str_view(home)) == Some(a.view_of()),
            None => strategy_action(*s, opt_str_view(home)) is None,
        },
{
    let name = to_chars(s.name.as_str());
    if chars_eq_str(name.as_slice(), "signal") {
        let p = prop_string_exec(&s.entries, "process");
        let g = prop_string_exec(&s.entries, "signal");
        match (p, g) {
            (Some(process), Some(signal)) => Some(ReloadAction::Signal { process, signal }),
            _ => None,
        }
    } else if chars_eq_str(name.as_slice(), "command") {
        match &s.children {
            Some(c) => match doc_get_exec(c, "argv") {
                Some(argv) => {
                    let mut args = entry_strings_exec(&argv.entries, home);
                    if args.len() > 0 {
                        let ghost all = strings_view(args@);
                        let cmd = args.remove(0);
                        assert(strings_view(args@) =~= all.drop_first());
                        Some(ReloadAction::Command { cmd, args })
                    } else {
                        None
                    }
                },
                None => None,
            },
            None => None,
        }
    } else if chars_eq_str(name.as_slice(), "touch") {
        match prop_string_exec(&s.entries, "path") {
            Some(p) => Some(ReloadAction::Touch { path: expand_tilde(p.as_str(), home) }),
            None => None,
        }
    } else {
        None
    }
}

fn push_strategies(out: &mut Vec<ReloadAction>, st: &Vec<KdlNodeModel>, home: Option<&str>)
    ensures
        actions_view(final(out)@) == actions_view(old(out)@) + strategies_actions(
            st@,
            opt_str_view(home),
        ),
{
    let mut i: usize = 0;
    assert(actions_view(out@) =~= actions_view(old(out)@) + strategies_actions(
        st@.take(0),
        opt_str_view(home),
    ));
    while i < st.len()
        invariant
            i <= st@.len(),
            actions_view(out@) == actions_view(old(out)@) + strategies_actions(
                st@.take(i as int),
                opt_str_view(home),
            ),
        decreases st.len() - i,
    {
        assert(st@.take(i + 1).drop_last() =~= st@.take(i as int));
        assert(st@.take(i + 1).last() == st@[i as int]);
        let ghost before = actions_view(out@);
        if let Some(a) = strategy_action_exec(&st[i], home) {
            out.push(a);
            assert(actions_view(out@) =~= before.push(a.view_of()));
        }
        i += 1;
    }
    assert(st@.take(i as int) =~= st@);
}

/// The reload actions of bindings.kdl, given its text (`None` where it could
/// not be read) and the home directory (`None` where unknown).
pub fn parse_reload_actions(content: Option<&str>, home: Option<&str>) -> (r: Option<
    Vec<ReloadAction>,
>)
    ensures
        match r {
            Some(v) => spec_parse_reload_actions(opt_str_view(content), opt_str_view(home))
                == Some(actions_view(v@)),
            None => spec_parse_reload_actions(opt_str_view(content), opt_str_view(home)) is None,
        },
{
    let text = match content {
        Some(t) => t,
        None => {
            return None;
        },
    };
    let nodes = match parse_kdl(text) {
        Some(n) => n,
        None => {
            return None;
        },
    };
    Some(reload_actions(&nodes, home))
}

/// The reload actions of the nodes of bindings.kdl, in order: for each
/// `bind` node, those of the strategies under its first `reload` child.
pub fn reload_actions(nodes: &Vec<KdlNodeModel>, home: Option<&str>) -> (r: Vec<ReloadAction>)
    ensures
        actions_view(r@) == doc_actions(nodes@, opt_str_view(home)),
{
    let mut out: Vec<ReloadAction> = Vec::new();
    let mut i: usize = 0;
    assert(actions_view(out@) =~= doc_actions(nodes@.take(0), opt_str_view(home)));
    while i < nodes.len()
        invariant
            i <= nodes@.len(),
            actions_view(out@) == doc_actions(nodes@.take(i as int), opt_str_view(home)),
        decreases nodes.len() - i,
    {
        assert(nodes@.take(i + 1).drop_last() =~= nodes@.take(i as int));
        assert(nodes@.take(i + 1).last() == nodes@[i as int]);
        let ghost before = actions_view(out@);
        let n = &nodes[i];
        let name = to_chars(n.name.as_str());
        if chars_eq_str(name.as_slice(), "bind") {
            if let Some(c) = &n.children {
                if let Some(r) = doc_get_exec(c, "reload") {
                    if let Some(st) = &r.children {
                        push_strategies(&mut out, st, home);
                    }
                }
            }
        }
        assert(actions_view(out@) =~= before + bind_actions(nodes@[i as int], opt_str_view(home)));
        i += 1;
    }
    assert(nodes@.take(i as int) =~= nodes@);
    out
}

/// The program and arguments that carry out an action: `pkill -SIGNAL
/// process` (a leading `-` added where missing), the command itself, or
/// `touch path`.
pub fn action_command(action: &ReloadAction) -> (r: (String, Vec<String>))
    ensures
        match action.view_of() {
            ActionView::Signal(p, g) => r.0@ == "pkill"@ && strings_view(r.1@) == seq![
                if g.len() > 0 && g[0] == '-' {
                    g
                } else {
                    seq!['-'] + g
                },
                p,
            ],
            ActionView::Command(c, a) => r.0@ == c && strings_view(r.1@) == a,
            ActionView::Touch(p) => r.0@ == "touch"@ && strings_view(r.1@) == seq![p],
        },
{
    match action {
        ReloadAction::Signal { process, signal } => {
            let sc = to_chars(signal.as_str());
            let flag = if sc.len() > 0 && sc[0] == '-' {
                signal.clone()
            } else {
                let mut f: Vec<char> = Vec::new();
                f.push('-');
                push_chars(&mut f, sc.as_slice());
                assert(f@ =~= seq!['-'] + signal@);
                from_chars(f.as_slice())
            };
            let mut args: Vec<String> = Vec::new();
            args.push(flag);
            args.push(process.clone());
            assert(strings_view(args@) =~= seq![flag@, process@]);
            ("pkill".to_owned(), args)
        },
        ReloadAction::Command { cmd, args } => {
            let mut out: Vec<String> = Vec::new();
            let mut i: usize = 0;
            while i < args.len()
                invariant
                    i <= args@.len(),
                    out@.len() == i,
                    forall|j: int| 0 <= j < i ==> #[trigger] out@[j]@ == args@[j]@,
                decreases args.len() - i,
            {
                out.push(args[i].clone());
                i += 1;
            }
            assert(strings_view(out@) =~= strings_view(args@));
            (cmd.clone(), out)
        },
        ReloadAction::Touch { path } => {
            let mut args: Vec<String> = Vec::new();
            args.push(path.clone());
            assert(strings_view(args@) =~= seq![path@]);
            ("touch".to_owned(), args)
        },
    }
}

/// The string values of entries, in order, as written.
pub open spec fn entry_texts(entries: Seq<KdlEntryModel>) -> Seq<Seq<char>>
    decreases entries.len(),
{
    if entries.len() == 0 {
        seq![]
    } else {
        match entries.last().text {
            Some(t) => entry_texts(entries.drop_last()).push(t@),
            None => entry_texts(entries.drop_last()),
        }
    }
}

proof fn lemma_entry_strings_expand(entries: Seq<KdlEntryModel>, home: Option<Seq<char>>)
    ensures
        entry_strings(entries, home) == entry_texts(entries).map_values(
            |t: Seq<char>| spec_expand_tilde(t, home),
        ),
    decreases entries.len(),
{
    if entries.len() > 0 {
        lemma_entry_strings_expand(entries.drop_last(), home);
        let f = |t: Seq<char>| spec_expand_tilde(t, home);
        match entries.last().text {
            Some(t) => {
                assert(entry_texts(entries.drop_last()).push(t@).map_values(f) =~= entry_texts(
                    entries.drop_last(),
                ).map_values(f).push(f(t@)));
            },
            None => {},
        }
    } else {
        assert(entry_texts(entries).map_values(|t: Seq<char>| spec_expand_tilde(t, home)) =~= seq![]);
    }
}

/// A `command` strategy runs its first `argv` string as the program and
/// the others as its arguments, each of them, program and arguments alike,
/// with a leading `~/` expanded to the home directory.
pub proof fn law_command_arguments_expanded(
    s: KdlNodeModel,
    children: Vec<KdlNodeModel>,
    argv: KdlNodeModel,
    home: Option<Seq<char>>,
)
    requires
        s.name@ == "command"@,
        s.children == Some(children),
        doc_get(children@, "argv"@) == Some(argv),
        entry_texts(argv.entries@).len() > 0,
    ensures
        ({
            let t = entry_texts(argv.entries@);
            strategy_action(s, home) == Some(
                ActionView::Command(
                    spec_expand_tilde(t[0], home),
                    t.drop_first().map_values(|x: Seq<char>| spec_expand_tilde(x, home)),
                ),
            )
        }),
{
    reveal_strlit("signal");
    reveal_strlit("command");
    assert("command"@ != "signal"@) by {
        assert("command"@.len() != "signal"@.len());
    }
    lemma_entry_strings_expand(argv.entries@, home);
    let t = entry_texts(argv.entries@);
    let f = |x: Seq<char>| spec_expand_tilde(x, home);
    let args = entry_strings(argv.entries@, home);
    assert(args.len() == t.len());
    assert(args[0] == f(t[0]));
    assert(args.drop_first() =~= t.drop_first().map_values(f));
}

} // verus!
