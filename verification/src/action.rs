//! The actions of the command line: their parsing, their textual forms and their error texts.
use vstd::prelude::*;
use crate::text::{
    lemma_first_index, lemma_first_index_at,
    Trim, chars_eq, chars_of, concat, concat3, lowercase, owned, slice_of, split_once,
    split_once_spec, starts_with, string_of, to_lower, trim_class, trim_end_spec, trim_spec, trim_start_spec,
};

verus! {

/// The settings of one alias definition.
#[derive(Debug, PartialEq, Clone)]
pub struct SetOptions {
    pub name: String,
    pub value: String,
    pub volatile: bool,
    pub force_case: bool,
}

/// What one command-line word asks the tool to do.
#[derive(Debug, PartialEq)]
pub enum AliasAction {
    Clear,
    Edit(Option<String>),
    File,
    Fail,
    Force,
    Case,
    NoCase,
    Help,
    Icons,
    NoIcons,
    Invalid,
    Reload,
    SetAlias(SetOptions),
    Setup,
    ShowAll,
    Startup,
    Temp,
    Tips,
    NoTips,
    Query(String),
    Quiet,
    NoQuiet,
    Remove(String),
    Unalias(String),
    Which,
    Toggle(Box<AliasAction>, bool),
}

/// The mathematical value of a `SetOptions`.
pub ghost struct SetView {
    pub name: Seq<char>,
    pub value: Seq<char>,
    pub volatile: bool,
    pub force_case: bool,
}

/// The mathematical value of an `AliasAction`: its strings as character sequences.
pub ghost enum ActionView {
    Clear,
    Edit(Option<Seq<char>>),
    File,
    Fail,
    Force,
    Case,
    NoCase,
    Help,
    Icons,
    NoIcons,
    Invalid,
    Reload,
    SetAlias(SetView),
    Setup,
    ShowAll,
    Startup,
    Temp,
    Tips,
    NoTips,
    Query(Seq<char>),
    Quiet,
    NoQuiet,
    Remove(Seq<char>),
    Unalias(Seq<char>),
    Which,
    Toggle(Box<ActionView>, bool),
}

pub open spec fn set_view(o: SetOptions) -> SetView {
    SetView { name: o.name@, value: o.value@, volatile: o.volatile, force_case: o.force_case }
}

pub open spec fn action_view(a: AliasAction) -> ActionView
    decreases a,
{
    match a {
        AliasAction::Clear => ActionView::Clear,
        AliasAction::Edit(e) => ActionView::Edit(
            match e {
                Some(s) => Some(s@),
                None => None,
            },
        ),
        AliasAction::File => ActionView::File,
        AliasAction::Fail => ActionView::Fail,
        AliasAction::Force => ActionView::Force,
        AliasAction::Case => ActionView::Case,
        AliasAction::NoCase => ActionView::NoCase,
        AliasAction::NoQuiet => ActionView::NoQuiet,
        AliasAction::Help => ActionView::Help,
        AliasAction::Icons => ActionView::Icons,
        AliasAction::NoIcons => ActionView::NoIcons,
        AliasAction::Invalid => ActionView::Invalid,
        AliasAction::Reload => ActionView::Reload,
        AliasAction::SetAlias(o) => ActionView::SetAlias(set_view(o)),
        AliasAction::Setup => ActionView::Setup,
        AliasAction::ShowAll => ActionView::ShowAll,
        AliasAction::Startup => ActionView::Startup,
        AliasAction::Temp => ActionView::Temp,
        AliasAction::Tips => ActionView::Tips,
        AliasAction::NoTips => ActionView::NoTips,
        AliasAction::Query(s) => ActionView::Query(s@),
        AliasAction::Quiet => ActionView::Quiet,
        AliasAction::Remove(s) => ActionView::Remove(s@),
        AliasAction::Unalias(s) => ActionView::Unalias(s@),
        AliasAction::Which => ActionView::Which,
        AliasAction::Toggle(b, t) => ActionView::Toggle(Box::new(action_view(*b)), t),
    }
}

impl View for AliasAction {
    type V = ActionView;

    open spec fn view(&self) -> ActionView {
        action_view(*self)
    }
}

// ---------------------------------------------------------------------------
// Parsing (FromStr)
// ---------------------------------------------------------------------------

/// What a lone word that is not `key=value` means; `search` is the word with a leading
/// `--no-` turned into `--`, `low` the lower-cased word and `s` the word as given.
pub open spec fn flag_spec(search: Seq<char>, neg: bool, low: Seq<char>, s: Seq<char>) -> ActionView {
    if search == "--icons"@ {
        if neg { ActionView::NoIcons } else { ActionView::Icons }
    } else if search == "--tips"@ {
        if neg { ActionView::NoTips } else { ActionView::Tips }
    } else if search == "--help"@ {
        if neg { ActionView::Invalid } else { ActionView::Help }
    } else if search == "--reload"@ {
        if neg { ActionView::Invalid } else { ActionView::Reload }
    } else if search == "--setup"@ {
        if neg { ActionView::Invalid } else { ActionView::Setup }
    } else if search == "--startup"@ {
        if neg { ActionView::Invalid } else { ActionView::Startup }
    } else if search == "--clear"@ {
        if neg { ActionView::Invalid } else { ActionView::Clear }
    } else if search == "--which"@ {
        if neg { ActionView::Invalid } else { ActionView::Which }
    } else if search == "--edalias"@ || search == "--edaliases"@ {
        if neg { ActionView::Invalid } else { ActionView::Edit(None) }
    } else if search == "--showall"@ || search == "--all"@ {
        if neg { ActionView::Invalid } else { ActionView::ShowAll }
    } else if search == "--file"@ {
        if neg { ActionView::Invalid } else { ActionView::File }
    } else if search == "--quiet"@ {
        if neg { ActionView::NoQuiet } else { ActionView::Quiet }
    } else if search == "--temp"@ {
        if neg { ActionView::Invalid } else { ActionView::Temp }
    } else if search == "--force"@ {
        if neg { ActionView::Invalid } else { ActionView::Force }
    } else if search == "--case"@ {
        if neg { ActionView::NoCase } else { ActionView::Case }
    } else if search == "--unalias"@ {
        if neg { ActionView::Invalid } else { ActionView::Unalias(Seq::empty()) }
    } else if search == "--remove"@ {
        if neg { ActionView::Invalid } else { ActionView::Remove(Seq::empty()) }
    } else if "--remove "@.is_prefix_of(low) {
        ActionView::Remove(low.skip(9))
    } else if "--unalias "@.is_prefix_of(low) {
        ActionView::Unalias(low.skip(10))
    } else if "--"@.is_prefix_of(low) {
        ActionView::Invalid
    } else {
        ActionView::Query(s)
    }
}

/// What a `key=value` word means (`left`/`right` are the lower-cased halves).
pub open spec fn pair_spec(left: Seq<char>, right: Seq<char>) -> ActionView {
    if left == "--edalias"@ || left == "--edaliases"@ {
        ActionView::Edit(Some(trim_spec(right, Trim::Char('\u{22}'))))
    } else if left == "--remove"@ {
        ActionView::Remove(right)
    } else if left == "--unalias"@ {
        ActionView::Unalias(right)
    } else if !(left.len() > 0 && left[0] == '-') {
        ActionView::SetAlias(SetView { name: left, value: right, volatile: false, force_case: false })
    } else {
        ActionView::Invalid
    }
}

/// What `AliasAction::from_str` gives for the word `s`.
pub open spec fn parse_action_spec(s: Seq<char>) -> ActionView {
    let low = lowercase(s);
    if "__internal_toggle="@.is_prefix_of(low) {
        match split_once_spec(low, '=') {
            Some((_l, right)) => match split_once_spec(right, ':') {
                Some((name, state)) => ActionView::Toggle(
                    Box::new(ActionView::Query(name)),
                    state == "true"@,
                ),
                None => ActionView::Invalid,
            },
            None => ActionView::Invalid,
        }
    } else {
        let neg = "--no-"@.is_prefix_of(low);
        let search = if neg { "--"@ + low.skip(5) } else { low };
        match split_once_spec(low, '=') {
            Some((left, right)) => pair_spec(left, right),
            None => flag_spec(search, neg, low, s),
        }
    }
}

/// Whether the characters `v` spell the literal `lit`.
pub fn is_lit(v: &[char], lit: &str) -> (b: bool)
    ensures
        b == (v@ == lit@),
{
    let l = chars_of(lit);
    chars_eq(v, l.as_slice())
}

fn flag_action(search: &[char], neg: bool, low: &[char], s: &str) -> (r: AliasAction)
    ensures
        r@ == flag_spec(search@, neg, low@, s@),
{
    if is_lit(search, "--icons") {
        if neg { AliasAction::NoIcons } else { AliasAction::Icons }
    } else if is_lit(search, "--tips") {
        if neg { AliasAction::NoTips } else { AliasAction::Tips }
    } else if is_lit(search, "--help") {
        if neg { AliasAction::Invalid } else { AliasAction::Help }
    } else if is_lit(search, "--reload") {
        if neg { AliasAction::Invalid } else { AliasAction::Reload }
    } else if is_lit(search, "--setup") {
        if neg { AliasAction::Invalid } else { AliasAction::Setup }
    } else if is_lit(search, "--startup") {
        if neg { AliasAction::Invalid } else { AliasAction::Startup }
    } else if is_lit(search, "--clear") {
        if neg { AliasAction::Invalid } else { AliasAction::Clear }
    } else if is_lit(search, "--which") {
        if neg { AliasAction::Invalid } else { AliasAction::Which }
    } else if is_lit(search, "--edalias") || is_lit(search, "--edaliases") {
        if neg { AliasAction::Invalid } else { AliasAction::Edit(None) }
    } else if is_lit(search, "--showall") || is_lit(search, "--all") {
        if neg { AliasAction::Invalid } else { AliasAction::ShowAll }
    } else if is_lit(search, "--file") {
        if neg { AliasAction::Invalid } else { AliasAction::File }
    } else if is_lit(search, "--quiet") {
        if neg { AliasAction::NoQuiet } else { AliasAction::Quiet }
    } else if is_lit(search, "--temp") {
        if neg { AliasAction::Invalid } else { AliasAction::Temp }
    } else if is_lit(search, "--force") {
        if neg { AliasAction::Invalid } else { AliasAction::Force }
    } else if is_lit(search, "--case") {
        if neg { AliasAction::NoCase } else { AliasAction::Case }
    } else if is_lit(search, "--unalias") {
        if neg { AliasAction::Invalid } else { AliasAction::Unalias(String::new()) }
    } else if is_lit(search, "--remove") {
        if neg { AliasAction::Invalid } else { AliasAction::Remove(String::new()) }
    } else {
        let rm = chars_of("--remove ");
        let un = chars_of("--unalias ");
        let dd = chars_of("--");
        proof {
            reveal_strlit("--remove ");
            reveal_strlit("--unalias ");
        }
        if starts_with(low, rm.as_slice()) {
            let rest = slice_of(low, 9, low.len());
            assert(rest@ =~= low@.skip(9));
            AliasAction::Remove(string_of(rest.as_slice()))
        } else if starts_with(low, un.as_slice()) {
            let rest = slice_of(low, 10, low.len());
            assert(rest@ =~= low@.skip(10));
            AliasAction::Unalias(string_of(rest.as_slice()))
        } else if starts_with(low, dd.as_slice()) {
            AliasAction::Invalid
        } else {
            AliasAction::Query(owned(s))
        }
    }
}

fn pair_action(left: &[char], right: &[char]) -> (r: AliasAction)
    ensures
        r@ == pair_spec(left@, right@),
{
    if is_lit(left, "--edalias") || is_lit(left, "--edaliases") {
        let t = trim_class(right, Trim::Char('\u{22}'));
        AliasAction::Edit(Some(string_of(t.as_slice())))
    } else if is_lit(left, "--remove") {
        AliasAction::Remove(string_of(right))
    } else if is_lit(left, "--unalias") {
        AliasAction::Unalias(string_of(right))
    } else if !(left.len() > 0 && left[0] == '-') {
        AliasAction::SetAlias(
            SetOptions {
                name: string_of(left),
                value: string_of(right),
                volatile: false,
                force_case: false,
            },
        )
    } else {
        AliasAction::Invalid
    }
}

/// `AliasAction::from_str`: the action a command-line word names.
pub fn parse_action(s: &str) -> (r: AliasAction)
    ensures
        r@ == parse_action_spec(s@),
{
    let lowstr = to_lower(s);
    let low = chars_of(lowstr.as_str());
    let tog = chars_of("__internal_toggle=");
    if starts_with(low.as_slice(), tog.as_slice()) {
        match split_once(low.as_slice(), '=') {
            Some((_l, right)) => match split_once(right.as_slice(), ':') {
                Some((name, state)) => {
                    let t = is_lit(state.as_slice(), "true");
                    let q = AliasAction::Query(string_of(name.as_slice()));
                    assert(q@ == ActionView::Query(name@));
                    let r = AliasAction::Toggle(Box::new(q), t);
                    assert(r@ == ActionView::Toggle(Box::new(ActionView::Query(name@)), t));
                    return r;
                },
                None => {
                    return AliasAction::Invalid;
                },
            },
            None => {
                return AliasAction::Invalid;
            },
        }
    }
    let nop = chars_of("--no-");
    let neg = starts_with(low.as_slice(), nop.as_slice());
    let search: Vec<char> = if neg {
        proof {
            reveal_strlit("--no-");
        }
        let mut rest = slice_of(low.as_slice(), 5, low.len());
        proof {
            assert(rest@ =~= low@.skip(5));
        }
        let mut d = chars_of("--");
        d.append(&mut rest);
        d
    } else {
        low.clone()
    };
    match split_once(low.as_slice(), '=') {
        Some((left, right)) => pair_action(left.as_slice(), right.as_slice()),
        None => flag_action(search.as_slice(), neg, low.as_slice(), s),
    }
}

impl std::str::FromStr for AliasAction {
    type Err = ();

    fn from_str(s: &str) -> (r: Result<AliasAction, ()>)
        ensures
            r matches Ok(a) && a@ == parse_action_spec(s@),
    {
        Ok(parse_action(s))
    }
}

// ---------------------------------------------------------------------------
// Textual forms
// ---------------------------------------------------------------------------

pub open spec fn bool_text(b: bool) -> Seq<char> {
    if b {
        "true"@
    } else {
        "false"@
    }
}

/// The text an action displays as (its `Display` form).
pub open spec fn display_spec(a: ActionView) -> Seq<char>
    decreases a,
{
    match a {
        ActionView::Help => "--help"@,
        ActionView::Reload => "--reload"@,
        ActionView::Setup => "--setup"@,
        ActionView::Clear => "--clear"@,
        ActionView::Which => "--which"@,
        ActionView::ShowAll => "--all"@,
        ActionView::File => "--file"@,
        ActionView::Edit(Some(ed)) => "--edalias="@ + ed,
        ActionView::Edit(None) => "--edalias"@,
        ActionView::Remove(t) => "--remove "@ + t,
        ActionView::Unalias(t) => "--unalias "@ + t,
        ActionView::SetAlias(o) => o.name + "="@ + o.value,
        ActionView::Query(q) => q,
        ActionView::Invalid => "--invalid"@,
        ActionView::Fail => "--fail"@,
        ActionView::Force => "--force"@,
        ActionView::Case => "--case"@,
        ActionView::NoCase => "--no-case"@,
        ActionView::NoQuiet => "--no-quiet"@,
        ActionView::Startup => "--startup"@,
        ActionView::Temp => "--temp"@,
        ActionView::Quiet => "--quiet"@,
        ActionView::Icons => "--icons"@,
        ActionView::NoIcons => "--no-icons"@,
        ActionView::Tips => "--tips"@,
        ActionView::NoTips => "--no-tips"@,
        ActionView::Toggle(from, to) => "__internal_toggle="@ + display_spec(*from) + ":"@
            + bool_text(to),
    }
}

/// The command-line arguments that ask for an action again (empty when there are none).
pub open spec fn cli_args_spec(a: ActionView) -> Seq<char> {
    match a {
        ActionView::Clear => "--clear"@,
        ActionView::Edit(None) => "--edalias"@,
        ActionView::Edit(Some(editor)) => "--edalias=\""@ + editor + "\""@,
        ActionView::Fail => Seq::empty(),
        ActionView::File => "--file"@,
        ActionView::Force => "--force"@,
        ActionView::Case => "--case"@,
        ActionView::NoCase => "--no-case"@,
        ActionView::NoQuiet => "--no-quiet"@,
        ActionView::Help => "--help"@,
        ActionView::Icons => "--icons"@,
        ActionView::NoIcons => Seq::empty(),
        ActionView::Invalid => Seq::empty(),
        ActionView::Reload => "--reload"@,
        ActionView::Remove(name) => "--remove "@ + name,
        ActionView::Query(name) => name,
        ActionView::SetAlias(o) => o.name + "="@ + o.value + (if o.volatile {
            " --temp"@
        } else {
            Seq::empty()
        }) + (if o.force_case {
            " --force"@
        } else {
            Seq::empty()
        }),
        ActionView::Setup => "--setup"@,
        ActionView::ShowAll => Seq::empty(),
        ActionView::Unalias(name) => "--unalias "@ + name,
        ActionView::Which => "--which"@,
        ActionView::Startup => "--startup"@,
        ActionView::Temp => "--temp"@,
        ActionView::Tips => "--tips"@,
        ActionView::NoTips => Seq::empty(),
        ActionView::Quiet => "--quiet"@,
        ActionView::Toggle(_, _) => Seq::empty(),
    }
}

/// The error text reported when an action fails.
pub open spec fn error_text_spec(a: ActionView) -> Seq<char> {
    match a {
        ActionView::Clear => "Clear aliases error"@,
        ActionView::Edit(Some(exe)) => "Error editing alias file with: "@ + exe,
        ActionView::Edit(None) => "Error editing alias file with default editor"@,
        ActionView::Fail => "General Error"@,
        ActionView::File => "Error loading file for actions or load"@,
        ActionView::Help => "Display help"@,
        ActionView::Invalid => "Unrecognized or malformed command"@,
        ActionView::Icons => "Error setting icons"@,
        ActionView::NoIcons => "Error unsetting icons"@,
        ActionView::Query(name) => "Error querying alias "@ + name + ": "@,
        ActionView::Reload => "Error reloading configuration"@,
        ActionView::Remove(name) => "Error removing alias: "@ + name,
        ActionView::SetAlias(o) => "Error setting alias: "@ + o.name,
        ActionView::Setup => "Error setting up autorun registry entry"@,
        ActionView::ShowAll => "Error showing all aliases"@,
        ActionView::Tips => "Error setting tips"@,
        ActionView::NoTips => "Error unsetting tips"@,
        ActionView::Unalias(alias) => "Error unaliasing alias: "@ + alias,
        ActionView::Which => "Error running diagnostics"@,
        ActionView::Force => "Error setting/using force case"@,
        ActionView::Case => "Error setting/using case sensitivity"@,
        ActionView::NoCase => "Error unsetting case sensitivity"@,
        ActionView::NoQuiet => "Error unsetting quiet mode"@,
        ActionView::Startup => "Error setting/using statup mode"@,
        ActionView::Temp => "Error setting/using process as memory only"@,
        ActionView::Quiet => "Error setting/using quiet mode"@,
        ActionView::Toggle(from, to) => "Error reverse mapping "@ + display_spec(*from) + " to "@
            + bool_text(to),
    }
}

/// Whether the action reads or writes the alias file.
pub open spec fn requires_file_spec(a: ActionView) -> bool {
    match a {
        ActionView::Edit(_) | ActionView::File | ActionView::Reload | ActionView::Remove(_)
        | ActionView::SetAlias(_) | ActionView::ShowAll => true,
        _ => false,
    }
}

impl SetOptions {
    /// A copy with equal fields.
    pub fn duplicate(&self) -> (r: SetOptions)
        ensures
            set_view(r) == set_view(*self),
    {
        SetOptions {
            name: self.name.clone(),
            value: self.value.clone(),
            volatile: self.volatile,
            force_case: self.force_case,
        }
    }
}

impl AliasAction {
    /// A copy of the action with equal contents.
    pub fn duplicate(&self) -> (r: AliasAction)
        ensures
            r@ == self@,
        decreases self,
    {
        match self {
            AliasAction::Clear => AliasAction::Clear,
            AliasAction::Edit(e) => AliasAction::Edit(
                match e {
                    Some(s) => Some(s.clone()),
                    None => None,
                },
            ),
            AliasAction::File => AliasAction::File,
            AliasAction::Fail => AliasAction::Fail,
            AliasAction::Force => AliasAction::Force,
            AliasAction::Case => AliasAction::Case,
            AliasAction::NoCase => AliasAction::NoCase,
            AliasAction::NoQuiet => AliasAction::NoQuiet,
            AliasAction::Help => AliasAction::Help,
            AliasAction::Icons => AliasAction::Icons,
            AliasAction::NoIcons => AliasAction::NoIcons,
            AliasAction::Invalid => AliasAction::Invalid,
            AliasAction::Reload => AliasAction::Reload,
            AliasAction::SetAlias(o) => AliasAction::SetAlias(o.duplicate()),
            AliasAction::Setup => AliasAction::Setup,
            AliasAction::ShowAll => AliasAction::ShowAll,
            AliasAction::Startup => AliasAction::Startup,
            AliasAction::Temp => AliasAction::Temp,
            AliasAction::Tips => AliasAction::Tips,
            AliasAction::NoTips => AliasAction::NoTips,
            AliasAction::Query(s) => AliasAction::Query(s.clone()),
            AliasAction::Quiet => AliasAction::Quiet,
            AliasAction::Remove(s) => AliasAction::Remove(s.clone()),
            AliasAction::Unalias(s) => AliasAction::Unalias(s.clone()),
            AliasAction::Which => AliasAction::Which,
            AliasAction::Toggle(b, t) => {
                let inner: &AliasAction = &**b;
                AliasAction::Toggle(Box::new(inner.duplicate()), *t)
            },
        }
    }
}

impl Clone for AliasAction {
    fn clone(&self) -> (r: AliasAction)
        ensures
            r@ == self@,
    {
        self.duplicate()
    }
}

fn lit(s: &str) -> (r: String)
    ensures
        r@ == s@,
{
    owned(s)
}

impl AliasAction {
    /// The action's `Display` text.
    pub fn display_string(&self) -> (r: String)
        ensures
            r@ == display_spec(self@),
        decreases self,
    {
        match self {
            AliasAction::Help => lit("--help"),
            AliasAction::Reload => lit("--reload"),
            AliasAction::Setup => lit("--setup"),
            AliasAction::Clear => lit("--clear"),
            AliasAction::Which => lit("--which"),
            AliasAction::ShowAll => lit("--all"),
            AliasAction::File => lit("--file"),
            AliasAction::Edit(Some(ed)) => concat("--edalias=", ed.as_str()),
            AliasAction::Edit(None) => lit("--edalias"),
            AliasAction::Remove(t) => concat("--remove ", t.as_str()),
            AliasAction::Unalias(t) => concat("--unalias ", t.as_str()),
            AliasAction::SetAlias(opt) => concat3(opt.name.as_str(), "=", opt.value.as_str()),
            AliasAction::Query(q) => q.clone(),
            AliasAction::Invalid => lit("--invalid"),
            AliasAction::Fail => lit("--fail"),
            AliasAction::Force => lit("--force"),
            AliasAction::Case => lit("--case"),
            AliasAction::NoCase => lit("--no-case"),
            AliasAction::NoQuiet => lit("--no-quiet"),
            AliasAction::Startup => lit("--startup"),
            AliasAction::Temp => lit("--temp"),
            AliasAction::Quiet => lit("--quiet"),
            AliasAction::Icons => lit("--icons"),
            AliasAction::NoIcons => lit("--no-icons"),
            AliasAction::Tips => lit("--tips"),
            AliasAction::NoTips => lit("--no-tips"),
            AliasAction::Toggle(from, to) => {
                let inner: &AliasAction = &**from;
                let f = inner.display_string();
                let head = concat3("__internal_toggle=", f.as_str(), ":");
                let b = if *to {
                    "true"
                } else {
                    "false"
                };
                concat(head.as_str(), b)
            },
        }
    }

    /// The action as `to_string()` shows it.
    pub fn to_string(&self) -> (r: String)
        ensures
            r@ == display_spec(self@),
    {
        self.display_string()
    }

    pub fn to_cli_args(&self) -> (r: String)
        ensures
            r@ == cli_args_spec(self@),
    {
        match self {
            AliasAction::Clear => lit("--clear"),
            AliasAction::Edit(None) => lit("--edalias"),
            AliasAction::Edit(Some(editor)) => concat3("--edalias=\"", editor.as_str(), "\""),
            AliasAction::Fail => String::new(),
            AliasAction::File => lit("--file"),
            AliasAction::Force => lit("--force"),
            AliasAction::Case => lit("--case"),
            AliasAction::NoCase => lit("--no-case"),
            AliasAction::NoQuiet => lit("--no-quiet"),
            AliasAction::Help => lit("--help"),
            AliasAction::Icons => lit("--icons"),
            AliasAction::NoIcons => String::new(),
            AliasAction::Invalid => String::new(),
            AliasAction::Reload => lit("--reload"),
            AliasAction::Remove(name) => concat("--remove ", name.as_str()),
            AliasAction::Query(name) => name.clone(),
            AliasAction::SetAlias(opts) => {
                let s = concat3(opts.name.as_str(), "=", opts.value.as_str());
                let s2 = if opts.volatile {
                    concat(s.as_str(), " --temp")
                } else {
                    s
                };
                let s3 = if opts.force_case {
                    concat(s2.as_str(), " --force")
                } else {
                    s2
                };
                proof {
                    assert(s3@ =~= cli_args_spec(self@));
                }
                s3
            },
            AliasAction::Setup => lit("--setup"),
            AliasAction::ShowAll => String::new(),
            AliasAction::Unalias(name) => concat("--unalias ", name.as_str()),
            AliasAction::Which => lit("--which"),
            AliasAction::Startup => lit("--startup"),
            AliasAction::Temp => lit("--temp"),
            AliasAction::Tips => lit("--tips"),
            AliasAction::NoTips => String::new(),
            AliasAction::Quiet => lit("--quiet"),
            AliasAction::Toggle(_, _) => String::new(),
        }
    }

    pub fn requires_file(&self) -> (r: bool)
        ensures
            r == requires_file_spec(self@),
    {
        match self {
            AliasAction::Edit(_) | AliasAction::File | AliasAction::Reload | AliasAction::Remove(_)
            | AliasAction::SetAlias(_) | AliasAction::ShowAll => true,
            _ => false,
        }
    }

    /// The action a word asks for (`Invalid` when it cannot be read).
    pub fn intent(arg: &str) -> (r: AliasAction)
        ensures
            r@ == parse_action_spec(arg@),
    {
        parse_action(arg)
    }

    /// Whether a word is a switch: it starts with `--` (such a word never reads as an alias
    /// name, so every one of them is a switch).
    pub fn is_switch(arg: &str) -> (r: bool)
        ensures
            r == "--"@.is_prefix_of(arg@),
    {
        let a = chars_of(arg);
        let dd = chars_of("--");
        starts_with(a.as_slice(), dd.as_slice())
    }

    /// The text of the error reported when this action fails.
    pub fn error(&self) -> (r: AliasErrorString<'_>)
        ensures
            r.0 == self,
    {
        AliasErrorString(self)
    }

    /// The text of the error reported when this action fails.
    pub fn error_text(&self) -> (r: String)
        ensures
            r@ == error_text_spec(self@),
    {
        match self {
            AliasAction::Clear => lit("Clear aliases error"),
            AliasAction::Edit(path) => match path {
                Some(exe) => concat("Error editing alias file with: ", exe.as_str()),
                None => lit("Error editing alias file with default editor"),
            },
            AliasAction::Fail => lit("General Error"),
            AliasAction::File => lit("Error loading file for actions or load"),
            AliasAction::Help => lit("Display help"),
            AliasAction::Invalid => lit("Unrecognized or malformed command"),
            AliasAction::Icons => lit("Error setting icons"),
            AliasAction::NoIcons => lit("Error unsetting icons"),
            AliasAction::Query(name) => concat3("Error querying alias ", name.as_str(), ": "),
            AliasAction::Reload => lit("Error reloading configuration"),
            AliasAction::Remove(name) => concat("Error removing alias: ", name.as_str()),
            AliasAction::SetAlias(opts) => concat("Error setting alias: ", opts.name.as_str()),
            AliasAction::Setup => lit("Error setting up autorun registry entry"),
            AliasAction::ShowAll => lit("Error showing all aliases"),
            AliasAction::Tips => lit("Error setting tips"),
            AliasAction::NoTips => lit("Error unsetting tips"),
            AliasAction::Unalias(alias) => concat("Error unaliasing alias: ", alias.as_str()),
            AliasAction::Which => lit("Error running diagnostics"),
            AliasAction::Force => lit("Error setting/using force case"),
            AliasAction::Case => lit("Error setting/using case sensitivity"),
            AliasAction::NoCase => lit("Error unsetting case sensitivity"),
            AliasAction::NoQuiet => lit("Error unsetting quiet mode"),
            AliasAction::Startup => lit("Error setting/using statup mode"),
            AliasAction::Temp => lit("Error setting/using process as memory only"),
            AliasAction::Quiet => lit("Error setting/using quiet mode"),
            AliasAction::Toggle(from, to) => {
                let inner: &AliasAction = &**from;
                let f = inner.display_string();
                let head = concat3("Error reverse mapping ", f.as_str(), " to ");
                let b = if *to {
                    "true"
                } else {
                    "false"
                };
                concat(head.as_str(), b)
            },
        }
    }
}

/// The error text of an action, as it displays.
pub struct AliasErrorString<'a>(pub &'a AliasAction);

impl<'a> AliasErrorString<'a> {
    /// The error text.
    pub fn message(&self) -> (r: String)
        ensures
            r@ == error_text_spec(self.0@),
    {
        self.0.error_text()
    }
}


// ---------------------------------------------------------------------------
// Reading back what an action displays
// ---------------------------------------------------------------------------

/// The actions whose `Display` text reads back as the same action.
pub open spec fn reads_back(a: ActionView) -> bool {
    match a {
        ActionView::Help | ActionView::Reload | ActionView::Setup | ActionView::Clear
        | ActionView::Which | ActionView::ShowAll | ActionView::File | ActionView::Invalid
        | ActionView::Force | ActionView::Startup | ActionView::Temp | ActionView::Quiet
        | ActionView::Icons | ActionView::NoIcons | ActionView::Tips | ActionView::NoTips
        | ActionView::Case | ActionView::NoCase | ActionView::NoQuiet => true,
        ActionView::Edit(None) => true,
        ActionView::Edit(Some(ed)) => trim_spec(ed, Trim::Char('\u{22}')) == ed,
        ActionView::Remove(t) | ActionView::Unalias(t) => !t.contains('='),
        ActionView::SetAlias(o) => {
            &&& !o.name.contains('=')
            &&& !(o.name.len() > 0 && o.name[0] == '-')
            &&& o.name != "__internal_toggle"@
            &&& !o.volatile
            &&& !o.force_case
        },
        ActionView::Query(q) => !q.contains('=') && !"--"@.is_prefix_of(q),
        ActionView::Toggle(from, _) => match *from {
            ActionView::Query(n) => !n.contains(':'),
            _ => false,
        },
        ActionView::Fail => false,
    }
}

proof fn lemma_not_prefix_at(p: Seq<char>, s: Seq<char>, i: int)
    requires
        0 <= i < p.len(),
        i < s.len(),
        p[i] != s[i],
    ensures
        !p.is_prefix_of(s),
{
    if p.is_prefix_of(s) {
        assert(s.subrange(0, p.len() as int)[i] == s[i]);
    }
}

/// A word with no `=` that does not start with `__internal_toggle=` or `--no-` reads as the
/// flag that `flag_spec` names for it.
proof fn lemma_parse_plain_word(s: Seq<char>)
    requires
        lowercase(s) == s,
        !s.contains('='),
        !"__internal_toggle="@.is_prefix_of(s),
        !"--no-"@.is_prefix_of(s),
    ensures
        parse_action_spec(s) == flag_spec(s, false, s, s),
{
    lemma_first_index(s, '=');
}

/// A `--x` flag word (third character not `n`) reads as `flag_spec` names it.
proof fn lemma_parse_flag_word(s: Seq<char>)
    requires
        lowercase(s) == s,
        !s.contains('='),
        s.len() >= 3,
        s[0] == '-',
        s[2] != 'n',
    ensures
        parse_action_spec(s) == flag_spec(s, false, s, s),
{
    reveal_strlit("__internal_toggle=");
    reveal_strlit("--no-");
    lemma_not_prefix_at("__internal_toggle="@, s, 0);
    lemma_not_prefix_at("--no-"@, s, 2);
    lemma_parse_plain_word(s);
}

proof fn lemma_flag_literals()
    ensures
        "--icons"@ == seq!['-', '-', 'i', 'c', 'o', 'n', 's'],
        "--tips"@ == seq!['-', '-', 't', 'i', 'p', 's'],
        "--help"@ == seq!['-', '-', 'h', 'e', 'l', 'p'],
        "--reload"@ == seq!['-', '-', 'r', 'e', 'l', 'o', 'a', 'd'],
        "--setup"@ == seq!['-', '-', 's', 'e', 't', 'u', 'p'],
        "--startup"@ == seq!['-', '-', 's', 't', 'a', 'r', 't', 'u', 'p'],
        "--clear"@ == seq!['-', '-', 'c', 'l', 'e', 'a', 'r'],
        "--which"@ == seq!['-', '-', 'w', 'h', 'i', 'c', 'h'],
        "--edalias"@ == seq!['-', '-', 'e', 'd', 'a', 'l', 'i', 'a', 's'],
        "--edaliases"@ == seq!['-', '-', 'e', 'd', 'a', 'l', 'i', 'a', 's', 'e', 's'],
        "--showall"@ == seq!['-', '-', 's', 'h', 'o', 'w', 'a', 'l', 'l'],
        "--all"@ == seq!['-', '-', 'a', 'l', 'l'],
        "--file"@ == seq!['-', '-', 'f', 'i', 'l', 'e'],
        "--quiet"@ == seq!['-', '-', 'q', 'u', 'i', 'e', 't'],
        "--temp"@ == seq!['-', '-', 't', 'e', 'm', 'p'],
        "--force"@ == seq!['-', '-', 'f', 'o', 'r', 'c', 'e'],
        "--unalias"@ == seq!['-', '-', 'u', 'n', 'a', 'l', 'i', 'a', 's'],
        "--remove"@ == seq!['-', '-', 'r', 'e', 'm', 'o', 'v', 'e'],
        "--invalid"@ == seq!['-', '-', 'i', 'n', 'v', 'a', 'l', 'i', 'd'],
        "--"@ == seq!['-', '-'],
        "--no-icons"@ == seq!['-', '-', 'n', 'o', '-', 'i', 'c', 'o', 'n', 's'],
        "--no-tips"@ == seq!['-', '-', 'n', 'o', '-', 't', 'i', 'p', 's'],
        "--case"@ == seq!['-', '-', 'c', 'a', 's', 'e'],
        "--no-case"@ == seq!['-', '-', 'n', 'o', '-', 'c', 'a', 's', 'e'],
        "--no-quiet"@ == seq!['-', '-', 'n', 'o', '-', 'q', 'u', 'i', 'e', 't'],
        "--remove "@ == seq!['-', '-', 'r', 'e', 'm', 'o', 'v', 'e', ' '],
        "--unalias "@ == seq!['-', '-', 'u', 'n', 'a', 'l', 'i', 'a', 's', ' '],
{
    reveal_strlit("--icons");
    reveal_strlit("--tips");
    reveal_strlit("--help");
    reveal_strlit("--reload");
    reveal_strlit("--setup");
    reveal_strlit("--startup");
    reveal_strlit("--clear");
    reveal_strlit("--which");
    reveal_strlit("--edalias");
    reveal_strlit("--edaliases");
    reveal_strlit("--showall");
    reveal_strlit("--all");
    reveal_strlit("--file");
    reveal_strlit("--quiet");
    reveal_strlit("--temp");
    reveal_strlit("--force");
    reveal_strlit("--unalias");
    reveal_strlit("--remove");
    reveal_strlit("--invalid");
    reveal_strlit("--");
    reveal_strlit("--no-icons");
    reveal_strlit("--no-tips");
    reveal_strlit("--case");
    reveal_strlit("--no-case");
    reveal_strlit("--no-quiet");
    reveal_strlit("--remove ");
    reveal_strlit("--unalias ");
}

/// Law: the `Display` text of an action reads back (`from_str`) as the same action,
/// for every action of `reads_back` whose text lower-casing leaves unchanged.
pub proof fn lemma_display_reads_back(a: ActionView)
    requires
        reads_back(a),
        lowercase(display_spec(a)) == display_spec(a),
    ensures
        parse_action_spec(display_spec(a)) == a,
{
    lemma_flag_literals();
    let d = display_spec(a);
    match a {
        ActionView::Help | ActionView::Reload | ActionView::Setup | ActionView::Clear
        | ActionView::Which | ActionView::ShowAll | ActionView::File | ActionView::Invalid
        | ActionView::Force | ActionView::Startup | ActionView::Temp | ActionView::Quiet
        | ActionView::Icons | ActionView::Tips | ActionView::Edit(None) | ActionView::Case => {
            assert(!d.contains('='));
            lemma_parse_flag_word(d);
        },
        ActionView::NoIcons | ActionView::NoTips | ActionView::NoCase | ActionView::NoQuiet => {
            reveal_strlit("__internal_toggle=");
            reveal_strlit("--no-");
            lemma_not_prefix_at("__internal_toggle="@, d, 0);
            assert(!d.contains('='));
            lemma_first_index(d, '=');
            assert(d.subrange(0, 5) =~= "--no-"@);
            if a is NoIcons {
                assert(("--"@ + d.skip(5)) =~= "--icons"@);
            } else if a is NoTips {
                assert(("--"@ + d.skip(5)) =~= "--tips"@);
            } else if a is NoCase {
                assert(("--"@ + d.skip(5)) =~= "--case"@);
            } else {
                assert(("--"@ + d.skip(5)) =~= "--quiet"@);
            }
        },
        ActionView::Remove(t) => {
            assert forall|k: int| 0 <= k < d.len() implies d[k] != '=' by {
                if k >= 9 {
                    assert(d[k] == t[k - 9]);
                }
            }
            lemma_parse_flag_word(d);
            assert(d.take(9) =~= "--remove "@);
            assert(d.skip(9) =~= t);
        },
        ActionView::Unalias(t) => {
            assert forall|k: int| 0 <= k < d.len() implies d[k] != '=' by {
                if k >= 10 {
                    assert(d[k] == t[k - 10]);
                }
            }
            lemma_parse_flag_word(d);
            assert(d.take(10) =~= "--unalias "@);
            assert(d.skip(10) =~= t);
        },
        ActionView::Edit(Some(ed)) => {
            reveal_strlit("--edalias=");
            lemma_parse_pair(d, 9);
            assert(d.take(9) =~= "--edalias"@);
            assert(d.skip(10) =~= ed);
        },
        ActionView::SetAlias(o) => {
            lemma_set_reads_back(o);
        },
        ActionView::Query(q) => {
            lemma_query_reads_back(q);
        },
        ActionView::Toggle(from, b) => {
            lemma_toggle_reads_back(from, b);
        },
        ActionView::Fail => {},
    }
}

/// A word whose first `=` is at `k` (and that cannot start `__internal_toggle=`) reads as the
/// pair of the text before and after that `=`.
proof fn lemma_parse_pair(d: Seq<char>, k: int)
    requires
        lowercase(d) == d,
        0 <= k < d.len(),
        d[0] != '_',
        d[k] == '=',
        forall|j: int| 0 <= j < k ==> d[j] != '=',
    ensures
        parse_action_spec(d) == pair_spec(d.take(k), d.skip(k + 1)),
{
    reveal_strlit("__internal_toggle=");
    lemma_not_prefix_at("__internal_toggle="@, d, 0);
    lemma_first_index_at(d, '=', k);
}

proof fn lemma_toggle_literal()
    ensures
        "__internal_toggle="@.len() == 18,
        "__internal_toggle="@[17] == '=',
        forall|j: int| 0 <= j < 17 ==> "__internal_toggle="@[j] != '=',
        "__internal_toggle="@.take(17) == "__internal_toggle"@,
{
    reveal_strlit("__internal_toggle=");
    reveal_strlit("__internal_toggle");
    assert("__internal_toggle="@.take(17) =~= "__internal_toggle"@);
}

proof fn lemma_set_reads_back(o: SetView)
    requires
        reads_back(ActionView::SetAlias(o)),
        lowercase(display_spec(ActionView::SetAlias(o))) == display_spec(ActionView::SetAlias(o)),
    ensures
        parse_action_spec(display_spec(ActionView::SetAlias(o))) == ActionView::SetAlias(o),
{
    lemma_flag_literals();
    lemma_toggle_literal();
    reveal_strlit("=");
    let d = display_spec(ActionView::SetAlias(o));
    let k = o.name.len() as int;
    let tog = "__internal_toggle="@;
    assert(d[k] == '=');
    assert forall|j: int| 0 <= j < k implies d[j] != '=' by {
        assert(d[j] == o.name[j]);
        if o.name[j] == '=' {
            assert(o.name.contains('='));
        }
    }
    if tog.is_prefix_of(d) {
        assert(d.subrange(0, 18)[17] == d[17]);
        if k < 17 {
            assert(d.subrange(0, 18)[k] == d[k]);
        } else if k > 17 {
            assert(d[17] == o.name[17]);
            assert(o.name.contains('='));
        } else {
            assert forall|j: int| 0 <= j < 17 implies o.name[j] == tog.take(17)[j] by {
                assert(d.subrange(0, 18)[j] == d[j]);
                assert(d[j] == o.name[j]);
            }
            assert(o.name =~= tog.take(17));
        }
    }
    lemma_first_index_at(d, '=', k);
    assert(d.take(k) =~= o.name);
    assert(d.skip(k + 1) =~= o.value);
    assert(!tog.is_prefix_of(d));
}

proof fn lemma_query_reads_back(q: Seq<char>)
    requires
        reads_back(ActionView::Query(q)),
        lowercase(q) == q,
    ensures
        parse_action_spec(q) == ActionView::Query(q),
{
    lemma_flag_literals();
    lemma_toggle_literal();
    reveal_strlit("--no-");
    let tog = "__internal_toggle="@;
    if tog.is_prefix_of(q) {
        assert(q.subrange(0, 18)[17] == q[17]);
        assert(q.contains('='));
    }
    if q.len() >= 2 && q[0] == '-' && q[1] == '-' {
        assert(q.subrange(0, 2) =~= "--"@);
    }
    if "--no-"@.is_prefix_of(q) {
        assert(q.subrange(0, 5)[0] == q[0]);
        assert(q.subrange(0, 5)[1] == q[1]);
    }
    lemma_parse_plain_word(q);
}

proof fn lemma_toggle_reads_back(from: Box<ActionView>, b: bool)
    requires
        reads_back(ActionView::Toggle(from, b)),
        lowercase(display_spec(ActionView::Toggle(from, b))) == display_spec(
            ActionView::Toggle(from, b),
        ),
    ensures
        parse_action_spec(display_spec(ActionView::Toggle(from, b))) == ActionView::Toggle(
            from,
            b,
        ),
{
    lemma_toggle_literal();
    reveal_strlit("true");
    reveal_strlit("false");
    reveal_strlit(":");
    let n = match *from {
        ActionView::Query(n) => n,
        _ => Seq::empty(),
    };
    let tog = "__internal_toggle="@;
    let bt = bool_text(b);
    let d = display_spec(ActionView::Toggle(from, b));
    assert(*from == ActionView::Query(n));
    assert(display_spec(*from) == n);
    assert(d == tog + n + ":"@ + bt);
    assert(d.subrange(0, 18) =~= tog);
    assert forall|j: int| 0 <= j < 17 implies d[j] != '=' by {
        assert(d[j] == tog[j]);
    }
    lemma_first_index_at(d, '=', 17);
    let right = d.skip(18);
    assert(right =~= n + ":"@ + bt);
    let k = n.len() as int;
    assert(right[k] == ':');
    assert forall|j: int| 0 <= j < k implies right[j] != ':' by {
        assert(right[j] == n[j]);
        if n[j] == ':' {
            assert(n.contains(':'));
        }
    }
    lemma_first_index_at(right, ':', k);
    assert(right.take(k) =~= n);
    assert(right.skip(k + 1) =~= bt);
}

} // verus!

verus! {

/// The actions whose command-line text reads back (`from_str`) as the same action: those
/// with a text whose `Display` text reads back; an editor's name must not start or end with
/// a double quote, as its quotes are stripped when it is read.
pub open spec fn cli_reads_back(a: ActionView) -> bool {
    &&& cli_args_spec(a).len() > 0
    &&& match a {
        ActionView::Edit(Some(ed)) => ed.len() == 0 || (ed[0] != '\u{22}' && ed.last() != '\u{22}'),
        _ => reads_back(a),
    }
}

/// Law: the command-line text that setup stores for an action (`to_cli_args`) reads back as
/// the same action, for every action of `cli_reads_back` whose text lower-casing leaves
/// unchanged.
pub proof fn lemma_cli_reads_back(a: ActionView)
    requires
        cli_reads_back(a),
        lowercase(cli_args_spec(a)) == cli_args_spec(a),
    ensures
        parse_action_spec(cli_args_spec(a)) == a,
{
    if let ActionView::Edit(Some(ed)) = a {
        let d = cli_args_spec(a);
        reveal_strlit("--edalias=\u{22}");
        reveal_strlit("--edalias");
        reveal_strlit("\u{22}");
        assert forall|j: int| 0 <= j < 9 implies d[j] != '=' by {}
        lemma_parse_pair(d, 9);
        assert(d.take(9) =~= "--edalias"@);
        let right = d.skip(10);
        assert(right =~= seq!['\u{22}'] + ed + seq!['\u{22}']);
        let k = Trim::Char('\u{22}');
        assert(right.drop_first() =~= ed + seq!['\u{22}']);
        assert(trim_start_spec(right, k) == trim_start_spec(ed + seq!['\u{22}'], k));
        if ed.len() == 0 {
            assert(ed + seq!['\u{22}'] =~= seq!['\u{22}']);
            assert(seq!['\u{22}'].drop_first() =~= Seq::<char>::empty());
            assert(trim_start_spec(Seq::<char>::empty(), k) =~= Seq::<char>::empty());
            assert(trim_start_spec(seq!['\u{22}'], k) =~= Seq::<char>::empty());
            assert(trim_start_spec(right, k) =~= Seq::<char>::empty());
            assert(trim_end_spec(Seq::<char>::empty(), k) =~= Seq::<char>::empty());
            assert(trim_spec(right, k) =~= ed);
        } else {
            assert((ed + seq!['\u{22}'])[0] == ed[0]);
            assert(trim_start_spec(right, k) == ed + seq!['\u{22}']);
            assert((ed + seq!['\u{22}']).drop_last() =~= ed);
            assert(trim_end_spec(ed + seq!['\u{22}'], k) == trim_end_spec(ed, k));
            assert(ed.last() != '\u{22}');
            assert(trim_end_spec(ed, k) == ed);
            assert(trim_spec(right, k) == ed);
        }
        assert(pair_spec(d.take(9), right) == ActionView::Edit(Some(ed)));
    } else {
        if let ActionView::SetAlias(o) = a {
            assert(cli_args_spec(a) =~= display_spec(a));
        }
        assert(cli_args_spec(a) == display_spec(a));
        lemma_display_reads_back(a);
    }
}

} // verus!
