//! Messages exchanged with the headless simulator: the commands a client sends and
//! the game states it receives back.
//!
//! Every type comes with a mathematical model (its `deep_view`) in which strings are
//! `Seq<char>` and vectors are `Seq`s of models; contracts are stated over those models.
//! Values that the library never looks into (relics, boss descriptions, event
//! variables, free-form command arguments) are carried as their JSON text.
use crate::json_text::{
    contains_text, ends_in, escaped, json_string, lemma_contains_widen, lemma_ends_in_append, lemma_occurs_extend,
    lemma_occurs_in_middle, lemma_occurs_shift, lemma_occurs_span, occurs_at, push_json_string, push_signed,
    signed_decimal, starts_with,
};
use vstd::prelude::*;

verus! {

// ---------------------------------------------------------------------------
// Command arguments
// ---------------------------------------------------------------------------

/// The value of one named argument of an `Action` command.
#[derive(Debug, Clone)]
pub enum ArgValue {
    /// A JSON integer.
    Int(i64),
    /// A JSON string.
    Str(String),
    /// Any other JSON value, kept as its JSON text.
    Json(String),
}

/// Model of an [`ArgValue`].
pub enum ArgValueModel {
    Int(i64),
    Str(Seq<char>),
    Json(Seq<char>),
}

impl DeepView for ArgValue {
    type V = ArgValueModel;

    open spec fn deep_view(&self) -> ArgValueModel {
        match self {
            ArgValue::Int(i) => ArgValueModel::Int(*i),
            ArgValue::Str(s) => ArgValueModel::Str(s@),
            ArgValue::Json(s) => ArgValueModel::Json(s@),
        }
    }
}

/// No argument name occurs twice (the arguments form a map).
pub open spec fn distinct_names(args: Seq<(Seq<char>, ArgValueModel)>) -> bool {
    forall|i: int, j: int|
        0 <= i < args.len() && 0 <= j < args.len() && i != j ==> #[trigger] args[i].0 != #[trigger] args[j].0
}

/// Arguments, if any, name each argument once.
pub open spec fn well_formed_args(args: Option<Seq<(Seq<char>, ArgValueModel)>>) -> bool {
    match args {
        Some(a) => distinct_names(a),
        None => true,
    }
}

// ---------------------------------------------------------------------------
// Commands
// ---------------------------------------------------------------------------

/// A command for the simulator.  On the wire it is a JSON object whose `cmd` field is the
/// snake-case name of the variant.
#[derive(Debug, Clone)]
pub enum Command {
    StartRun { character: String, ascension: i32, seed: Option<String>, lang: String },
    Action { action: String, args: Option<Vec<(String, ArgValue)>> },
    GetMap,
    LoadSave { path: Option<String>, json: Option<String>, lang: String },
    Quit { path: Option<String> },
}

/// Model of a [`Command`].
pub enum CommandModel {
    StartRun { character: Seq<char>, ascension: i32, seed: Option<Seq<char>>, lang: Seq<char> },
    Action { action: Seq<char>, args: Option<Seq<(Seq<char>, ArgValueModel)>> },
    GetMap,
    LoadSave { path: Option<Seq<char>>, json: Option<Seq<char>>, lang: Seq<char> },
    Quit { path: Option<Seq<char>> },
}

impl DeepView for Command {
    type V = CommandModel;

    open spec fn deep_view(&self) -> CommandModel {
        match self {
            Command::StartRun { character, ascension, seed, lang } => CommandModel::StartRun {
                character: character@,
                ascension: *ascension,
                seed: seed.deep_view(),
                lang: lang@,
            },
            Command::Action { action, args } => CommandModel::Action {
                action: action@,
                args: args.deep_view(),
            },
            Command::GetMap => CommandModel::GetMap,
            Command::LoadSave { path, json, lang } => CommandModel::LoadSave {
                path: path.deep_view(),
                json: json.deep_view(),
                lang: lang@,
            },
            Command::Quit { path } => CommandModel::Quit { path: path.deep_view() },
        }
    }
}

/// An `Action` command named `name` with the given arguments.
pub open spec fn action_model(name: Seq<char>, args: Option<Seq<(Seq<char>, ArgValueModel)>>) -> CommandModel {
    CommandModel::Action { action: name, args }
}

/// A single integer argument.
pub open spec fn int_arg(name: Seq<char>, value: i64) -> (Seq<char>, ArgValueModel) {
    (name, ArgValueModel::Int(value))
}

/// The arguments of `play_card`: the card, then the target when there is one.
pub open spec fn play_card_args(card_index: usize, target_index: Option<usize>) -> Seq<(Seq<char>, ArgValueModel)> {
    match target_index {
        Some(t) => seq![int_arg("card_index"@, card_index as i64), int_arg("target_index"@, t as i64)],
        None => seq![int_arg("card_index"@, card_index as i64)],
    }
}

/// The argument lists that the command constructors build name each argument once.
pub proof fn constructed_arguments_are_distinct(card_index: usize, target_index: Option<usize>, col: i32, row: i32)
    ensures
        distinct_names(play_card_args(card_index, target_index)),
        distinct_names(seq![int_arg("col"@, col as i64), int_arg("row"@, row as i64)]),
{
    reveal_strlit("card_index");
    reveal_strlit("target_index");
    reveal_strlit("col");
    reveal_strlit("row");
    assert("card_index"@.len() != "target_index"@.len());
    assert("col"@[0] != "row"@[0]);
}

/// Character used by `start_run` when none is given.
pub fn default_character() -> (r: String)
    ensures
        r@ == "Necrobinder"@,
{
    "Necrobinder".to_owned()
}

/// Language used by `start_run` and `load_save` when none is given.
pub fn default_lang() -> (r: String)
    ensures
        r@ == "en"@,
{
    "en".to_owned()
}

fn int_arg_entry(name: &str, value: i64) -> (r: (String, ArgValue))
    ensures
        r.deep_view() == int_arg(name@, value),
{
    (name.to_owned(), ArgValue::Int(value))
}

fn one_int_arg(name: &str, value: i64) -> (r: Option<Vec<(String, ArgValue)>>)
    ensures
        r.deep_view() == Some(seq![int_arg(name@, value)]),
{
    let mut args: Vec<(String, ArgValue)> = Vec::new();
    args.push(int_arg_entry(name, value));
    assert(args.deep_view() =~= seq![int_arg(name@, value)]);
    Some(args)
}

impl Command {
    /// An `Action` command with the given name and arguments.
    pub fn action(name: &str, args: Option<Vec<(String, ArgValue)>>) -> (r: Command)
        requires
            well_formed_args(args.deep_view()),
        ensures
            r.deep_view() == action_model(name@, args.deep_view()),
    {
        Command::Action { action: name.to_owned(), args }
    }

    /// Play the card at `card_index` of the hand, on the enemy at `target_index` if given.
    pub fn play_card(card_index: usize, target_index: Option<usize>) -> (r: Command)
        ensures
            r.deep_view() == action_model("play_card"@, Some(play_card_args(card_index, target_index))),
    {
        let mut args: Vec<(String, ArgValue)> = Vec::new();
        args.push(int_arg_entry("card_index", card_index as i64));
        if let Some(ti) = target_index {
            args.push(int_arg_entry("target_index", ti as i64));
        }
        assert(args.deep_view() =~= play_card_args(card_index, target_index));
        proof {
            constructed_arguments_are_distinct(card_index, target_index, 0, 0);
        }
        Self::action("play_card", Some(args))
    }

    /// End the current turn.
    pub fn end_turn() -> (r: Command)
        ensures
            r.deep_view() == action_model("end_turn"@, None),
    {
        Self::action("end_turn", None)
    }

    /// Travel to the map node at column `col`, row `row`.
    pub fn select_map_node(col: i32, row: i32) -> (r: Command)
        ensures
            r.deep_view() == action_model(
                "select_map_node"@,
                Some(seq![int_arg("col"@, col as i64), int_arg("row"@, row as i64)]),
            ),
    {
        let mut args: Vec<(String, ArgValue)> = Vec::new();
        args.push(int_arg_entry("col", col as i64));
        args.push(int_arg_entry("row", row as i64));
        assert(args.deep_view() =~= seq![int_arg("col"@, col as i64), int_arg("row"@, row as i64)]);
        proof {
            constructed_arguments_are_distinct(0, None, col, row);
        }
        Self::action("select_map_node", Some(args))
    }

    /// Take the reward card at `card_index`.
    pub fn select_card_reward(card_index: usize) -> (r: Command)
        ensures
            r.deep_view() == action_model(
                "select_card_reward"@,
                Some(seq![int_arg("card_index"@, card_index as i64)]),
            ),
    {
        Self::action("select_card_reward", one_int_arg("card_index", card_index as i64))
    }

    /// Take no reward card.
    pub fn skip_card_reward() -> (r: Command)
        ensures
            r.deep_view() == action_model("skip_card_reward"@, None),
    {
        Self::action("skip_card_reward", None)
    }

    /// Choose the event or rest-site option at `option_index`.
    pub fn choose_option(option_index: usize) -> (r: Command)
        ensures
            r.deep_view() == action_model(
                "choose_option"@,
                Some(seq![int_arg("option_index"@, option_index as i64)]),
            ),
    {
        Self::action("choose_option", one_int_arg("option_index", option_index as i64))
    }

    /// Select several cards; `indices` is passed through as a string.
    pub fn select_cards(indices: &str) -> (r: Command)
        ensures
            r.deep_view() == action_model(
                "select_cards"@,
                Some(seq![("indices"@, ArgValueModel::Str(indices@))]),
            ),
    {
        let mut args: Vec<(String, ArgValue)> = Vec::new();
        args.push(("indices".to_owned(), ArgValue::Str(indices.to_owned())));
        assert(args.deep_view() =~= seq![("indices"@, ArgValueModel::Str(indices@))]);
        Self::action("select_cards", Some(args))
    }

    /// Buy the shop card at `card_index`.
    pub fn buy_card(card_index: usize) -> (r: Command)
        ensures
            r.deep_view() == action_model(
                "buy_card"@,
                Some(seq![int_arg("card_index"@, card_index as i64)]),
            ),
    {
        Self::action("buy_card", one_int_arg("card_index", card_index as i64))
    }

    /// Use the shop's card removal service.
    pub fn remove_card() -> (r: Command)
        ensures
            r.deep_view() == action_model("remove_card"@, None),
    {
        Self::action("remove_card", None)
    }

    /// Leave the current room.
    pub fn leave_room() -> (r: Command)
        ensures
            r.deep_view() == action_model("leave_room"@, None),
    {
        Self::action("leave_room", None)
    }

    /// Proceed to the next screen.
    pub fn proceed() -> (r: Command)
        ensures
            r.deep_view() == action_model("proceed"@, None),
    {
        Self::action("proceed", None)
    }
}


// ---------------------------------------------------------------------------
// Wire form of a command
// ---------------------------------------------------------------------------

/// The JSON text of an argument's value: an integer in decimal, a string quoted and
/// escaped, any other value as its JSON text.
pub open spec fn arg_value_text(v: ArgValueModel) -> Seq<char> {
    match v {
        ArgValueModel::Int(i) => signed_decimal(i as int),
        ArgValueModel::Str(s) => json_string(s),
        ArgValueModel::Json(t) => t,
    }
}

/// One member `"name":value` of the arguments object.
pub open spec fn arg_member(arg: (Seq<char>, ArgValueModel)) -> Seq<char> {
    json_string(arg.0) + seq![':'] + arg_value_text(arg.1)
}

/// The members of the arguments object, in order, separated by commas.
pub open spec fn arg_members(args: Seq<(Seq<char>, ArgValueModel)>) -> Seq<char>
    decreases args.len(),
{
    if args.len() == 0 {
        Seq::empty()
    } else if args.len() == 1 {
        arg_member(args[0])
    } else {
        arg_members(args.drop_last()) + seq![','] + arg_member(args.last())
    }
}

/// `,"name":"value"` for an optional string member that is present; nothing when it is
/// absent.
pub open spec fn optional_member(name: Seq<char>, value: Option<Seq<char>>) -> Seq<char> {
    match value {
        Some(v) => seq![','] + json_string(name) + seq![':'] + json_string(v),
        None => Seq::empty(),
    }
}

/// The JSON text of a command as the simulator reads it: an object whose first member
/// `cmd` names the variant in snake case, followed by the variant's fields in order;
/// an absent optional field is left out.
pub open spec fn command_text(c: CommandModel) -> Seq<char> {
    match c {
        CommandModel::StartRun { character, ascension, seed, lang } => "{\"cmd\":\"start_run\",\"character\":"@
            + json_string(character) + ",\"ascension\":"@ + signed_decimal(ascension as int) + optional_member(
            "seed"@,
            seed,
        ) + ",\"lang\":"@ + json_string(lang) + "}"@,
        CommandModel::Action { action, args } => "{\"cmd\":\"action\",\"action\":"@ + json_string(action) + match args {
            Some(a) => ",\"args\":{"@ + arg_members(a) + "}"@,
            None => Seq::empty(),
        } + "}"@,
        CommandModel::GetMap => "{\"cmd\":\"get_map\"}"@,
        CommandModel::LoadSave { path, json, lang } => "{\"cmd\":\"load_save\""@ + optional_member("path"@, path)
            + optional_member("json"@, json) + ",\"lang\":"@ + json_string(lang) + "}"@,
        CommandModel::Quit { path } => "{\"cmd\":\"quit\""@ + optional_member("path"@, path) + "}"@,
    }
}

fn push_arg_value(out: &mut String, v: &ArgValue)
    ensures
        final(out)@ == old(out)@ + arg_value_text(v.deep_view()),
{
    match v {
        ArgValue::Int(i) => push_signed(out, *i),
        ArgValue::Str(s) => push_json_string(out, s.as_str()),
        ArgValue::Json(t) => out.append(t.as_str()),
    }
}

fn push_arg_members(out: &mut String, args: &Vec<(String, ArgValue)>)
    ensures
        final(out)@ == old(out)@ + arg_members(args.deep_view()),
{
    let ghost base = out@;
    let ghost model = args.deep_view();
    let mut i: usize = 0;
    proof {
        assert(model.take(0) =~= Seq::<(Seq<char>, ArgValueModel)>::empty());
    }
    while i < args.len()
        invariant
            model == args.deep_view(),
            i <= args.len(),
            out@ == base + arg_members(model.take(i as int)),
        decreases args.len() - i,
    {
        if i > 0 {
            out.append(",");
            proof { reveal_strlit(","); }
        }
        push_json_string(out, args[i].0.as_str());
        out.append(":");
        push_arg_value(out, &args[i].1);
        proof {
            reveal_strlit(":");
            assert(model[i as int] == (args[i as int].0@, args[i as int].1.deep_view()));
            assert(model.take(i + 1).drop_last() =~= model.take(i as int));
            assert(model.take(i + 1).last() == model[i as int]);
            assert(out@ =~= base + arg_members(model.take(i + 1)));
        }
        i += 1;
    }
    proof {
        assert(model.take(args.len() as int) =~= model);
    }
}

fn push_optional_member(out: &mut String, name: &str, value: &Option<String>)
    ensures
        final(out)@ == old(out)@ + optional_member(name@, value.deep_view()),
{
    match value {
        Some(v) => {
            out.append(",");
            push_json_string(out, name);
            out.append(":");
            push_json_string(out, v.as_str());
            proof {
                reveal_strlit(",");
                reveal_strlit(":");
                assert(out@ =~= old(out)@ + optional_member(name@, value.deep_view()));
            }
        },
        None => {
            proof {
                assert(old(out)@ + optional_member(name@, value.deep_view()) =~= old(out)@);
            }
        },
    }
}

impl Command {
    /// The JSON text of the command, as sent to the simulator: see [`command_text`].
    pub fn to_json(&self) -> (r: String)
        ensures
            r@ == command_text(self.deep_view()),
    {
        match self {
            Command::StartRun { character, ascension, seed, lang } => {
                let mut out = "{\"cmd\":\"start_run\",\"character\":".to_owned();
                push_json_string(&mut out, character.as_str());
                out.append(",\"ascension\":");
                push_signed(&mut out, *ascension as i64);
                push_optional_member(&mut out, "seed", seed);
                out.append(",\"lang\":");
                push_json_string(&mut out, lang.as_str());
                out.append("}");
                out
            },
            Command::Action { action, args } => {
                let mut out = "{\"cmd\":\"action\",\"action\":".to_owned();
                push_json_string(&mut out, action.as_str());
                let ghost head = out@;
                match args {
                    Some(a) => {
                        out.append(",\"args\":{");
                        push_arg_members(&mut out, a);
                        out.append("}");
                    },
                    None => {
                        proof {
                            assert(out@ =~= head + Seq::<char>::empty());
                        }
                    },
                }
                out.append("}");
                out
            },
            Command::GetMap => "{\"cmd\":\"get_map\"}".to_owned(),
            Command::LoadSave { path, json, lang } => {
                let mut out = "{\"cmd\":\"load_save\"".to_owned();
                push_optional_member(&mut out, "path", path);
                push_optional_member(&mut out, "json", json);
                out.append(",\"lang\":");
                push_json_string(&mut out, lang.as_str());
                out.append("}");
                out
            },
            Command::Quit { path } => {
                let mut out = "{\"cmd\":\"quit\"".to_owned();
                push_optional_member(&mut out, "path", path);
                out.append("}");
                out
            },
        }
    }
}

// ---------------------------------------------------------------------------
// Laws of the commands and their wire form
// ---------------------------------------------------------------------------

/// The JSON object member `"key":value`, the value given as its JSON text.
pub open spec fn member_text(key: Seq<char>, value: Seq<char>) -> Seq<char> {
    json_string(key) + seq![':'] + value
}

/// The value of the first argument called `name`, if any.
pub open spec fn arg_named(args: Seq<(Seq<char>, ArgValueModel)>, name: Seq<char>) -> Option<ArgValueModel>
    decreases args.len(),
{
    if args.len() == 0 {
        None
    } else if args[0].0 == name {
        Some(args[0].1)
    } else {
        arg_named(args.drop_first(), name)
    }
}

proof fn lemma_arg_members_contain(a: Seq<(Seq<char>, ArgValueModel)>, k: int)
    requires
        0 <= k < a.len(),
    ensures
        contains_text(arg_members(a), member_text(a[k].0, arg_value_text(a[k].1))),
    decreases a.len(),
{
    let m = member_text(a[k].0, arg_value_text(a[k].1));
    let e = Seq::<char>::empty();
    if a.len() == 1 {
        assert(arg_members(a) =~= e + m + e);
        lemma_occurs_in_middle(e, m, e);
    } else if k == a.len() - 1 {
        let front = arg_members(a.drop_last()) + seq![','];
        assert(arg_members(a) =~= front + m + e);
        lemma_occurs_in_middle(front, m, e);
    } else {
        lemma_arg_members_contain(a.drop_last(), k);
        assert(a.drop_last()[k] == a[k]);
        let back = seq![','] + arg_member(a.last());
        assert(arg_members(a) =~= e + arg_members(a.drop_last()) + back);
        lemma_contains_widen(e, arg_members(a.drop_last()), back, m);
    }
}

/// A present optional member `,"name":value` holds `"name":value` one past its start,
/// where `key` is `"name":` spelled out.
proof fn lemma_optional_member_holds(name: Seq<char>, key: Seq<char>, v: Seq<char>)
    requires
        json_string(name) + seq![':'] == key,
    ensures
        occurs_at(optional_member(name, Some(v)), 1, key + json_string(v)),
{
    let head = seq![','] + json_string(name) + seq![':'];
    assert(head.subrange(head.len() - key.len(), head.len() as int) =~= key);
    lemma_occurs_span(head, key, json_string(v));
    assert(optional_member(name, Some(v)) == head + json_string(v));
}

proof fn lemma_start_run_text(character: Seq<char>, ascension: i32, seed: Option<Seq<char>>, lang: Seq<char>)
    ensures
        ({
            let t = command_text(CommandModel::StartRun { character, ascension, seed, lang });
            &&& t.len() > 0 && t.last() == '}'
            &&& starts_with(t, "{\"cmd\":\"start_run\""@)
            &&& contains_text(t, "\"character\":"@ + json_string(character))
            &&& contains_text(t, "\"ascension\":"@ + signed_decimal(ascension as int))
            &&& (seed matches Some(v) ==> contains_text(t, "\"seed\":"@ + json_string(v)))
            &&& contains_text(t, "\"lang\":"@ + json_string(lang))
        }),
{
    let t = command_text(CommandModel::StartRun { character, ascension, seed, lang });
    let l0 = "{\"cmd\":\"start_run\",\"character\":"@;
    let l1 = ",\"ascension\":"@;
    let l2 = ",\"lang\":"@;
    let close = "}"@;
    let kc = "\"character\":"@;
    let ka = "\"ascension\":"@;
    let kl = "\"lang\":"@;
    let pre = "{\"cmd\":\"start_run\""@;
    let jc = json_string(character);
    let da = signed_decimal(ascension as int);
    let sp = optional_member("seed"@, seed);
    let jl = json_string(lang);
    let s1 = l0 + jc;
    let s2 = s1 + l1;
    let s3 = s2 + da;
    let s4 = s3 + sp;
    let s5 = s4 + l2;
    let s6 = s5 + jl;
    assert(t == s6 + close);
    assert(close =~= seq!['}']) by {
        reveal_strlit("}");
    }
    // The command's name.
    assert(occurs_at(l0, 0, pre)) by {
        reveal_strlit("{\"cmd\":\"start_run\",\"character\":");
        reveal_strlit("{\"cmd\":\"start_run\"");
        assert(l0.subrange(0, pre.len() as int) =~= pre);
    }
    lemma_occurs_extend(l0, jc, 0, pre);
    lemma_occurs_extend(s1, l1, 0, pre);
    lemma_occurs_extend(s2, da, 0, pre);
    lemma_occurs_extend(s3, sp, 0, pre);
    lemma_occurs_extend(s4, l2, 0, pre);
    lemma_occurs_extend(s5, jl, 0, pre);
    lemma_occurs_extend(s6, close, 0, pre);
    // The character.
    assert(ends_in(l0, kc)) by {
        reveal_strlit("{\"cmd\":\"start_run\",\"character\":");
        reveal_strlit("\"character\":");
        assert(l0.subrange(l0.len() - kc.len(), l0.len() as int) =~= kc);
    }
    lemma_occurs_span(l0, kc, jc);
    let i1 = l0.len() - kc.len();
    lemma_occurs_extend(s1, l1, i1, kc + jc);
    lemma_occurs_extend(s2, da, i1, kc + jc);
    lemma_occurs_extend(s3, sp, i1, kc + jc);
    lemma_occurs_extend(s4, l2, i1, kc + jc);
    lemma_occurs_extend(s5, jl, i1, kc + jc);
    lemma_occurs_extend(s6, close, i1, kc + jc);
    // The ascension.
    assert(ends_in(l1, ka)) by {
        reveal_strlit(",\"ascension\":");
        reveal_strlit("\"ascension\":");
        assert(l1.subrange(l1.len() - ka.len(), l1.len() as int) =~= ka);
    }
    lemma_ends_in_append(s1, l1, ka);
    lemma_occurs_span(s2, ka, da);
    let i2 = s2.len() - ka.len();
    lemma_occurs_extend(s3, sp, i2, ka + da);
    lemma_occurs_extend(s4, l2, i2, ka + da);
    lemma_occurs_extend(s5, jl, i2, ka + da);
    lemma_occurs_extend(s6, close, i2, ka + da);
    // The language.
    assert(ends_in(l2, kl)) by {
        reveal_strlit(",\"lang\":");
        reveal_strlit("\"lang\":");
        assert(l2.subrange(l2.len() - kl.len(), l2.len() as int) =~= kl);
    }
    lemma_ends_in_append(s4, l2, kl);
    lemma_occurs_span(s5, kl, jl);
    lemma_occurs_extend(s6, close, s5.len() - kl.len(), kl + jl);
    // The seed, when there is one.
    if let Some(v) = seed {
        let ks = "\"seed\":"@;
        assert(json_string("seed"@) + seq![':'] =~= ks) by {
            reveal_strlit("seed");
            reveal_strlit("\"seed\":");
            reveal_with_fuel(escaped, 5);
            assert(escaped("seed"@) =~= "seed"@);
        }
        lemma_optional_member_holds("seed"@, ks, v);
        lemma_occurs_shift(s3, sp, 1, ks + json_string(v));
        let i3: int = s3.len() as int + 1;
        lemma_occurs_extend(s4, l2, i3, ks + json_string(v));
        lemma_occurs_extend(s5, jl, i3, ks + json_string(v));
        lemma_occurs_extend(s6, close, i3, ks + json_string(v));
    }
}

proof fn lemma_action_text(action: Seq<char>, args: Option<Seq<(Seq<char>, ArgValueModel)>>)
    ensures
        ({
            let t = command_text(CommandModel::Action { action, args });
            &&& t.len() > 0 && t.last() == '}'
            &&& starts_with(t, "{\"cmd\":\"action\""@)
            &&& contains_text(t, member_text("action"@, json_string(action)))
            &&& (args matches Some(a) ==> forall|k: int|
                0 <= k < a.len() ==> contains_text(t, member_text(#[trigger] a[k].0, arg_value_text(a[k].1))))
        }),
{
    reveal_strlit("}");
    let t = command_text(CommandModel::Action { action, args });

        reveal_strlit("{\"cmd\":\"action\",\"action\":");
        reveal_strlit("{\"cmd\":\"action\"");
        reveal_strlit("{\"cmd\":\"action\",");
        reveal_strlit("action");
        reveal_strlit(",\"args\":{");
        reveal_with_fuel(escaped, 7);
        assert(json_string("action"@) =~= seq!['"', 'a', 'c', 't', 'i', 'o', 'n', '"']);
        let pre = "{\"cmd\":\"action\","@;
        let m1 = member_text("action"@, json_string(action));
        let tail = match args {
            Some(a) => ",\"args\":{"@ + arg_members(a) + "}"@,
            None => Seq::empty(),
        } + "}"@;
        assert(t =~= pre + m1 + tail);
        lemma_occurs_in_middle(pre, m1, tail);
        assert(t.subrange(0, "{\"cmd\":\"action\""@.len() as int) =~= "{\"cmd\":\"action\""@);
        if let Some(a) = args {
            assert forall|k: int| 0 <= k < a.len() implies contains_text(
                t,
                member_text(#[trigger] a[k].0, arg_value_text(a[k].1)),
            ) by {
                lemma_arg_members_contain(a, k);
                assert(t =~= (pre + m1 + ",\"args\":{"@) + arg_members(a) + ("}"@ + "}"@));
                lemma_contains_widen(
                    pre + m1 + ",\"args\":{"@,
                    arg_members(a),
                    "}"@ + "}"@,
                    member_text(a[k].0, arg_value_text(a[k].1)),
                );
            }
        }
    
}

proof fn lemma_load_save_text(path: Option<Seq<char>>, json: Option<Seq<char>>, lang: Seq<char>)
    ensures
        ({
            let t = command_text(CommandModel::LoadSave { path, json, lang });
            &&& t.len() > 0 && t.last() == '}'
            &&& starts_with(t, "{\"cmd\":\"load_save\""@)
            &&& (path matches Some(v) ==> contains_text(t, "\"path\":"@ + json_string(v)))
            &&& (json matches Some(v) ==> contains_text(t, "\"json\":"@ + json_string(v)))
            &&& contains_text(t, "\"lang\":"@ + json_string(lang))
        }),
{
    let t = command_text(CommandModel::LoadSave { path, json, lang });
    let pre = "{\"cmd\":\"load_save\""@;
    let l2 = ",\"lang\":"@;
    let kl = "\"lang\":"@;
    let close = "}"@;
    let pp = optional_member("path"@, path);
    let jp = optional_member("json"@, json);
    let jl = json_string(lang);
    let s1 = pre + pp;
    let s2 = s1 + jp;
    let s3 = s2 + l2;
    let s4 = s3 + jl;
    assert(t == s4 + close);
    assert(close =~= seq!['}']) by {
        reveal_strlit("}");
    }
    // The command's name.
    assert(occurs_at(pre, 0, pre)) by {
        assert(pre.subrange(0, pre.len() as int) =~= pre);
    }
    lemma_occurs_extend(pre, pp, 0, pre);
    lemma_occurs_extend(s1, jp, 0, pre);
    lemma_occurs_extend(s2, l2, 0, pre);
    lemma_occurs_extend(s3, jl, 0, pre);
    lemma_occurs_extend(s4, close, 0, pre);
    // The language.
    assert(ends_in(l2, kl)) by {
        reveal_strlit(",\"lang\":");
        reveal_strlit("\"lang\":");
        assert(l2.subrange(l2.len() - kl.len(), l2.len() as int) =~= kl);
    }
    lemma_ends_in_append(s2, l2, kl);
    lemma_occurs_span(s3, kl, jl);
    lemma_occurs_extend(s4, close, s3.len() - kl.len(), kl + jl);
    // The save path and the save text, when present.
    if let Some(v) = path {
        let kp = "\"path\":"@;
        assert(json_string("path"@) + seq![':'] =~= kp) by {
            reveal_strlit("path");
            reveal_strlit("\"path\":");
            reveal_with_fuel(escaped, 5);
            assert(escaped("path"@) =~= "path"@);
        }
        lemma_optional_member_holds("path"@, kp, v);
        let m = kp + json_string(v);
        lemma_occurs_shift(pre, pp, 1, m);
        let i: int = pre.len() as int + 1;
        lemma_occurs_extend(s1, jp, i, m);
        lemma_occurs_extend(s2, l2, i, m);
        lemma_occurs_extend(s3, jl, i, m);
        lemma_occurs_extend(s4, close, i, m);
    }
    if let Some(v) = json {
        let kj = "\"json\":"@;
        assert(json_string("json"@) + seq![':'] =~= kj) by {
            reveal_strlit("json");
            reveal_strlit("\"json\":");
            reveal_with_fuel(escaped, 5);
            assert(escaped("json"@) =~= "json"@);
        }
        lemma_optional_member_holds("json"@, kj, v);
        let m = kj + json_string(v);
        lemma_occurs_shift(s1, jp, 1, m);
        let i: int = s1.len() as int + 1;
        lemma_occurs_extend(s2, l2, i, m);
        lemma_occurs_extend(s3, jl, i, m);
        lemma_occurs_extend(s4, close, i, m);
    }
}

proof fn lemma_quit_text(path: Option<Seq<char>>)
    ensures
        ({
            let t = command_text(CommandModel::Quit { path });
            &&& t.len() > 0 && t.last() == '}'
            &&& path matches Some(p) ==> t == "{\"cmd\":\"quit\",\"path\":"@ + json_string(p) + "}"@
            &&& path is None ==> t == "{\"cmd\":\"quit\"}"@
        }),
{
    reveal_strlit("}");
    let t = command_text(CommandModel::Quit { path });

        reveal_strlit("{\"cmd\":\"quit\"");
        reveal_strlit("{\"cmd\":\"quit\"}");
        reveal_strlit("{\"cmd\":\"quit\",\"path\":");
        reveal_strlit("path");
        reveal_with_fuel(escaped, 5);
        assert(json_string("path"@) =~= seq!['"', 'p', 'a', 't', 'h', '"']);
        if let Some(p) = path {
            assert(t =~= "{\"cmd\":\"quit\",\"path\":"@ + json_string(p) + "}"@);
        } else {
            assert(t =~= "{\"cmd\":\"quit\"}"@);
        }
    
}

/// The wire text of a command carries everything in it: it begins with the `cmd` member
/// naming the command, and every field, every optional field that is present and every
/// argument of an action appears in it as a `"name":value` member with the field's value.
/// Quitting with a save path sends exactly that path; quitting without one sends the bare
/// command.
pub proof fn wire_text_carries_every_field(c: CommandModel)
    ensures
        ({
            let t = command_text(c);
            &&& t.len() > 0 && t.last() == '}'
            &&& match c {
                CommandModel::StartRun { character, ascension, seed, lang } => {
                    &&& starts_with(t, "{\"cmd\":\"start_run\""@)
                    &&& contains_text(t, "\"character\":"@ + json_string(character))
                    &&& contains_text(t, "\"ascension\":"@ + signed_decimal(ascension as int))
                    &&& (seed matches Some(v) ==> contains_text(t, "\"seed\":"@ + json_string(v)))
                    &&& contains_text(t, "\"lang\":"@ + json_string(lang))
                },
                CommandModel::Action { action, args } => {
                    &&& starts_with(t, "{\"cmd\":\"action\""@)
                    &&& contains_text(t, member_text("action"@, json_string(action)))
                    &&& (args matches Some(a) ==> forall|k: int|
                        0 <= k < a.len() ==> contains_text(
                            t,
                            member_text(#[trigger] a[k].0, arg_value_text(a[k].1)),
                        ))
                },
                CommandModel::GetMap => t == "{\"cmd\":\"get_map\"}"@,
                CommandModel::LoadSave { path, json, lang } => {
                    &&& starts_with(t, "{\"cmd\":\"load_save\""@)
                    &&& (path matches Some(v) ==> contains_text(t, "\"path\":"@ + json_string(v)))
                    &&& (json matches Some(v) ==> contains_text(t, "\"json\":"@ + json_string(v)))
                    &&& contains_text(t, "\"lang\":"@ + json_string(lang))
                },
                CommandModel::Quit { path } => {
                    &&& path matches Some(p) ==> t == "{\"cmd\":\"quit\",\"path\":"@ + json_string(p) + "}"@
                    &&& path is None ==> t == "{\"cmd\":\"quit\"}"@
                },
            }
        }),
{
    reveal_strlit("}");
    match c {
        CommandModel::StartRun { character, ascension, seed, lang } => lemma_start_run_text(
            character,
            ascension,
            seed,
            lang,
        ),
        CommandModel::Action { action, args } => lemma_action_text(action, args),
        CommandModel::GetMap => {
            reveal_strlit("{\"cmd\":\"get_map\"}");
        },
        CommandModel::LoadSave { path, json, lang } => lemma_load_save_text(path, json, lang),
        CommandModel::Quit { path } => lemma_quit_text(path),
    }
}

/// `play_card` names the card to play, and names a target exactly when one is given,
/// whatever its index (the first enemy, index 0, included); both reach the wire text as
/// `"card_index":<card>` and `"target_index":<target>`.
pub proof fn play_card_names_card_and_target(card_index: usize, target_index: Option<usize>)
    ensures
        arg_named(play_card_args(card_index, target_index), "card_index"@) == Some(
            ArgValueModel::Int(card_index as i64),
        ),
        arg_named(play_card_args(card_index, target_index), "target_index"@) == match target_index {
            Some(t) => Some(ArgValueModel::Int(t as i64)),
            None => None::<ArgValueModel>,
        },
        contains_text(
            command_text(action_model("play_card"@, Some(play_card_args(card_index, target_index)))),
            member_text("card_index"@, signed_decimal((card_index as i64) as int)),
        ),
        target_index matches Some(t) ==> contains_text(
            command_text(action_model("play_card"@, Some(play_card_args(card_index, target_index)))),
            member_text("target_index"@, signed_decimal((t as i64) as int)),
        ),
{
    reveal_strlit("card_index");
    reveal_strlit("target_index");
    assert("card_index"@.len() != "target_index"@.len());
    reveal_with_fuel(arg_named, 3);
    let a = play_card_args(card_index, target_index);
    wire_text_carries_every_field(action_model("play_card"@, Some(a)));
    assert(a[0].0 == "card_index"@);
    assert(arg_value_text(a[0].1) == signed_decimal((card_index as i64) as int));
    if let Some(t) = target_index {
        assert(a.drop_first()[0] == a[1]);
        assert(a.drop_first().drop_first().len() == 0);
        assert(a[1].0 == "target_index"@);
        assert(arg_value_text(a[1].1) == signed_decimal((t as i64) as int));
    } else {
        assert(a.drop_first().len() == 0);
    }
}

// ---------------------------------------------------------------------------
// Localized text
// ---------------------------------------------------------------------------

/// Text that is either plain or given per language (`{"en": ..., "zh": ...}`).
#[derive(Debug, Clone)]
pub enum LocalizedString {
    Plain(String),
    Bilingual { en: Option<String>, zh: Option<String> },
}

/// Model of a [`LocalizedString`].
pub enum LocalizedModel {
    Plain(Seq<char>),
    Bilingual { en: Option<Seq<char>>, zh: Option<Seq<char>> },
}

impl DeepView for LocalizedString {
    type V = LocalizedModel;

    open spec fn deep_view(&self) -> LocalizedModel {
        match self {
            LocalizedString::Plain(s) => LocalizedModel::Plain(s@),
            LocalizedString::Bilingual { en, zh } => LocalizedModel::Bilingual {
                en: en.deep_view(),
                zh: zh.deep_view(),
            },
        }
    }
}

impl LocalizedModel {
    /// The text shown: the plain text, else the English text, else the Chinese text,
    /// else the empty text.
    pub open spec fn text(self) -> Seq<char> {
        match self {
            LocalizedModel::Plain(s) => s,
            LocalizedModel::Bilingual { en, zh } => match en {
                Some(e) => e,
                None => match zh {
                    Some(z) => z,
                    None => Seq::empty(),
                },
            },
        }
    }
}

/// The model of `LocalizedString::Plain(text)`.
pub open spec fn plain(text: Seq<char>) -> LocalizedModel {
    LocalizedModel::Plain(text)
}

impl LocalizedString {
    /// The text to show: see [`LocalizedModel::text`].
    pub fn as_str(&self) -> (r: &str)
        ensures
            r@ == self.deep_view().text(),
    {
        match self {
            LocalizedString::Plain(s) => s.as_str(),
            LocalizedString::Bilingual { en, zh } => {
                if let Some(e) = en {
                    e.as_str()
                } else if let Some(z) = zh {
                    z.as_str()
                } else {
                    proof {
                        reveal_strlit("");
                    }
                    ""
                }
            },
        }
    }
}

impl Default for LocalizedString {
    fn default() -> (r: Self)
        ensures
            r.deep_view() == plain(Seq::empty()),
    {
        LocalizedString::Plain(String::new())
    }
}

// ---------------------------------------------------------------------------
// Game state records
// ---------------------------------------------------------------------------

/// Numbers printed on a card.
#[derive(Debug, Clone)]
pub struct CardStats {
    pub damage: Option<i32>,
    pub block: Option<i32>,
    pub magic: Option<i32>,
}

impl DeepView for CardStats {
    type V = CardStats;

    open spec fn deep_view(&self) -> CardStats {
        CardStats { damage: self.damage, block: self.block, magic: self.magic }
    }
}

impl Default for CardStats {
    fn default() -> (r: Self)
        ensures
            r.deep_view() == (CardStats { damage: None, block: None, magic: None }),
    {
        CardStats { damage: None, block: None, magic: None }
    }
}

/// A card in hand, in the deck, in a reward or in a shop.
#[derive(Debug, Clone)]
pub struct CardInfo {
    pub index: usize,
    pub name: LocalizedString,
    pub cost: i32,
    pub card_type: String,
    pub can_play: bool,
    pub target_type: Option<String>,
    pub stats: Option<CardStats>,
    pub keywords: Option<Vec<String>>,
    pub is_stocked: Option<bool>,
}

/// Model of a [`CardInfo`].
pub struct CardInfoModel {
    pub index: usize,
    pub name: LocalizedModel,
    pub cost: i32,
    pub card_type: Seq<char>,
    pub can_play: bool,
    pub target_type: Option<Seq<char>>,
    pub stats: Option<CardStats>,
    pub keywords: Option<Seq<Seq<char>>>,
    pub is_stocked: Option<bool>,
}

impl DeepView for CardInfo {
    type V = CardInfoModel;

    open spec fn deep_view(&self) -> CardInfoModel {
        CardInfoModel {
            index: self.index,
            name: self.name.deep_view(),
            cost: self.cost,
            card_type: self.card_type@,
            can_play: self.can_play,
            target_type: self.target_type.deep_view(),
            stats: self.stats.deep_view(),
            keywords: self.keywords.deep_view(),
            is_stocked: self.is_stocked,
        }
    }
}

/// The model of `CardInfo::default()`.
pub open spec fn card_default() -> CardInfoModel {
    CardInfoModel {
        index: 0,
        name: plain(Seq::empty()),
        cost: 0,
        card_type: Seq::empty(),
        can_play: false,
        target_type: None,
        stats: None,
        keywords: None,
        is_stocked: None,
    }
}

impl Default for CardInfo {
    fn default() -> (r: Self)
        ensures
            r.deep_view() == card_default(),
    {
        CardInfo {
            index: 0,
            name: LocalizedString::default(),
            cost: 0,
            card_type: String::new(),
            can_play: false,
            target_type: None,
            stats: None,
            keywords: None,
            is_stocked: None,
        }
    }
}

/// One announced move of an enemy.
#[derive(Debug, Clone)]
pub struct EnemyIntent {
    pub intent_type: String,
    pub damage: Option<i32>,
    pub hits: Option<i32>,
}

/// Model of an [`EnemyIntent`].
pub struct EnemyIntentModel {
    pub intent_type: Seq<char>,
    pub damage: Option<i32>,
    pub hits: Option<i32>,
}

impl DeepView for EnemyIntent {
    type V = EnemyIntentModel;

    open spec fn deep_view(&self) -> EnemyIntentModel {
        EnemyIntentModel { intent_type: self.intent_type@, damage: self.damage, hits: self.hits }
    }
}

impl Default for EnemyIntent {
    fn default() -> (r: Self)
        ensures
            r.deep_view() == (EnemyIntentModel { intent_type: Seq::empty(), damage: None, hits: None }),
    {
        EnemyIntent { intent_type: String::new(), damage: None, hits: None }
    }
}

/// An enemy in combat.
#[derive(Debug, Clone)]
pub struct EnemyInfo {
    pub index: usize,
    pub name: LocalizedString,
    pub hp: i32,
    pub max_hp: i32,
    pub block: i32,
    pub intents: Option<Vec<EnemyIntent>>,
    pub intends_attack: Option<bool>,
}

/// Model of an [`EnemyInfo`].
pub struct EnemyInfoModel {
    pub index: usize,
    pub name: LocalizedModel,
    pub hp: i32,
    pub max_hp: i32,
    pub block: i32,
    pub intents: Option<Seq<EnemyIntentModel>>,
    pub intends_attack: Option<bool>,
}

impl DeepView for EnemyInfo {
    type V = EnemyInfoModel;

    open spec fn deep_view(&self) -> EnemyInfoModel {
        EnemyInfoModel {
            index: self.index,
            name: self.name.deep_view(),
            hp: self.hp,
            max_hp: self.max_hp,
            block: self.block,
            intents: self.intents.deep_view(),
            intends_attack: self.intends_attack,
        }
    }
}

impl Default for EnemyInfo {
    fn default() -> (r: Self)
        ensures
            r.deep_view() == (EnemyInfoModel {
                index: 0,
                name: plain(Seq::empty()),
                hp: 0,
                max_hp: 0,
                block: 0,
                intents: None,
                intends_attack: None,
            }),
    {
        EnemyInfo {
            index: 0,
            name: LocalizedString::default(),
            hp: 0,
            max_hp: 0,
            block: 0,
            intents: None,
            intends_attack: None,
        }
    }
}

/// Osty, the Necrobinder's companion.
#[derive(Debug, Clone)]
pub struct OstyState {
    pub hp: i32,
    pub max_hp: i32,
    pub block: i32,
    pub alive: bool,
}

impl DeepView for OstyState {
    type V = OstyState;

    open spec fn deep_view(&self) -> OstyState {
        OstyState { hp: self.hp, max_hp: self.max_hp, block: self.block, alive: self.alive }
    }
}

impl Default for OstyState {
    fn default() -> (r: Self)
        ensures
            r.deep_view() == (OstyState { hp: 0, max_hp: 0, block: 0, alive: false }),
    {
        OstyState { hp: 0, max_hp: 0, block: 0, alive: false }
    }
}

/// A potion slot.
#[derive(Debug, Clone)]
pub struct PotionInfo {
    pub index: usize,
    pub name: LocalizedString,
    pub target_type: Option<String>,
    pub can_use: Option<bool>,
}

/// Model of a [`PotionInfo`].
pub struct PotionInfoModel {
    pub index: usize,
    pub name: LocalizedModel,
    pub target_type: Option<Seq<char>>,
    pub can_use: Option<bool>,
}

impl DeepView for PotionInfo {
    type V = PotionInfoModel;

    open spec fn deep_view(&self) -> PotionInfoModel {
        PotionInfoModel {
            index: self.index,
            name: self.name.deep_view(),
            target_type: self.target_type.deep_view(),
            can_use: self.can_use,
        }
    }
}

impl Default for PotionInfo {
    fn default() -> (r: Self)
        ensures
            r.deep_view() == (PotionInfoModel {
                index: 0,
                name: plain(Seq::empty()),
                target_type: None,
                can_use: None,
            }),
    {
        PotionInfo { index: 0, name: LocalizedString::default(), target_type: None, can_use: None }
    }
}

/// The player's vital statistics.  `relics` holds each relic as JSON text.
#[derive(Debug, Clone)]
pub struct PlayerState {
    pub hp: i32,
    pub max_hp: i32,
    pub gold: i32,
    pub energy: i32,
    pub block: i32,
    pub deck_size: usize,
    pub deck: Option<Vec<CardInfo>>,
    pub potions: Option<Vec<PotionInfo>>,
    pub relics: Option<Vec<String>>,
}

/// Model of a [`PlayerState`].
pub struct PlayerStateModel {
    pub hp: i32,
    pub max_hp: i32,
    pub gold: i32,
    pub energy: i32,
    pub block: i32,
    pub deck_size: usize,
    pub deck: Option<Seq<CardInfoModel>>,
    pub potions: Option<Seq<PotionInfoModel>>,
    pub relics: Option<Seq<Seq<char>>>,
}

impl DeepView for PlayerState {
    type V = PlayerStateModel;

    open spec fn deep_view(&self) -> PlayerStateModel {
        PlayerStateModel {
            hp: self.hp,
            max_hp: self.max_hp,
            gold: self.gold,
            energy: self.energy,
            block: self.block,
            deck_size: self.deck_size,
            deck: self.deck.deep_view(),
            potions: self.potions.deep_view(),
            relics: self.relics.deep_view(),
        }
    }
}

/// A player summary with the given numbers and no deck, potion or relic list.
pub open spec fn player_model(
    hp: i32,
    max_hp: i32,
    gold: i32,
    energy: i32,
    block: i32,
    deck_size: usize,
) -> PlayerStateModel {
    PlayerStateModel { hp, max_hp, gold, energy, block, deck_size, deck: None, potions: None, relics: None }
}

impl PlayerState {
    /// A player summary with the given numbers and no deck, potion or relic list.
    pub fn summary(hp: i32, max_hp: i32, gold: i32, energy: i32, block: i32, deck_size: usize) -> (r: Self)
        ensures
            r.deep_view() == player_model(hp, max_hp, gold, energy, block, deck_size),
    {
        PlayerState { hp, max_hp, gold, energy, block, deck_size, deck: None, potions: None, relics: None }
    }
}

impl Default for PlayerState {
    fn default() -> (r: Self)
        ensures
            r.deep_view() == player_model(0, 0, 0, 0, 0, 0),
    {
        PlayerState::summary(0, 0, 0, 0, 0, 0)
    }
}

/// A node that can be travelled to on the map.
#[derive(Debug, Clone)]
pub struct MapChoice {
    pub col: i32,
    pub row: i32,
    pub room_type: String,
}

/// Model of a [`MapChoice`].
pub struct MapChoiceModel {
    pub col: i32,
    pub row: i32,
    pub room_type: Seq<char>,
}

impl DeepView for MapChoice {
    type V = MapChoiceModel;

    open spec fn deep_view(&self) -> MapChoiceModel {
        MapChoiceModel { col: self.col, row: self.row, room_type: self.room_type@ }
    }
}

impl Default for MapChoice {
    fn default() -> (r: Self)
        ensures
            r.deep_view() == (MapChoiceModel { col: 0, row: 0, room_type: Seq::empty() }),
    {
        MapChoice { col: 0, row: 0, room_type: String::new() }
    }
}

/// An option of an event.  `vars` maps variable names to JSON text.
#[derive(Debug, Clone)]
pub struct EventOption {
    pub index: usize,
    pub title: LocalizedString,
    pub is_locked: bool,
    pub vars: Option<Vec<(String, String)>>,
}

/// Model of an [`EventOption`].
pub struct EventOptionModel {
    pub index: usize,
    pub title: LocalizedModel,
    pub is_locked: bool,
    pub vars: Option<Seq<(Seq<char>, Seq<char>)>>,
}

impl DeepView for EventOption {
    type V = EventOptionModel;

    open spec fn deep_view(&self) -> EventOptionModel {
        EventOptionModel {
            index: self.index,
            title: self.title.deep_view(),
            is_locked: self.is_locked,
            vars: self.vars.deep_view(),
        }
    }
}

impl Default for EventOption {
    fn default() -> (r: Self)
        ensures
            r.deep_view() == (EventOptionModel {
                index: 0,
                title: plain(Seq::empty()),
                is_locked: false,
                vars: None,
            }),
    {
        EventOption { index: 0, title: LocalizedString::default(), is_locked: false, vars: None }
    }
}

/// Where the run stands.  `boss` holds the boss description as JSON text.
#[derive(Debug, Clone)]
pub struct GameContext {
    pub act: i32,
    pub floor: i32,
    pub room_type: Option<String>,
    pub boss: Option<String>,
}

/// Model of a [`GameContext`].
pub struct GameContextModel {
    pub act: i32,
    pub floor: i32,
    pub room_type: Option<Seq<char>>,
    pub boss: Option<Seq<char>>,
}

impl DeepView for GameContext {
    type V = GameContextModel;

    open spec fn deep_view(&self) -> GameContextModel {
        GameContextModel {
            act: self.act,
            floor: self.floor,
            room_type: self.room_type.deep_view(),
            boss: self.boss.deep_view(),
        }
    }
}

impl Default for GameContext {
    fn default() -> (r: Self)
        ensures
            r.deep_view() == (GameContextModel { act: 0, floor: 0, room_type: None, boss: None }),
    {
        GameContext { act: 0, floor: 0, room_type: None, boss: None }
    }
}

/// A message from the simulator: a decision point, a result, or an error.
#[derive(Debug, Clone)]
pub struct GameState {
    pub msg_type: String,
    pub decision: Option<String>,
    pub player: Option<PlayerState>,
    pub context: Option<GameContext>,
    pub hand: Option<Vec<CardInfo>>,
    pub enemies: Option<Vec<EnemyInfo>>,
    pub osty: Option<OstyState>,
    pub energy: Option<i32>,
    pub round: Option<i32>,
    pub choices: Option<Vec<MapChoice>>,
    pub cards: Option<Vec<CardInfo>>,
    pub options: Option<Vec<EventOption>>,
    pub potions: Option<Vec<PotionInfo>>,
    pub card_removal_cost: Option<i32>,
    pub min_select: Option<usize>,
    pub max_select: Option<usize>,
    pub victory: Option<bool>,
    pub message: Option<String>,
    pub version: Option<String>,
}

/// Model of a [`GameState`].
pub struct GameStateModel {
    pub msg_type: Seq<char>,
    pub decision: Option<Seq<char>>,
    pub player: Option<PlayerStateModel>,
    pub context: Option<GameContextModel>,
    pub hand: Option<Seq<CardInfoModel>>,
    pub enemies: Option<Seq<EnemyInfoModel>>,
    pub osty: Option<OstyState>,
    pub energy: Option<i32>,
    pub round: Option<i32>,
    pub choices: Option<Seq<MapChoiceModel>>,
    pub cards: Option<Seq<CardInfoModel>>,
    pub options: Option<Seq<EventOptionModel>>,
    pub potions: Option<Seq<PotionInfoModel>>,
    pub card_removal_cost: Option<i32>,
    pub min_select: Option<usize>,
    pub max_select: Option<usize>,
    pub victory: Option<bool>,
    pub message: Option<Seq<char>>,
    pub version: Option<Seq<char>>,
}

impl DeepView for GameState {
    type V = GameStateModel;

    open spec fn deep_view(&self) -> GameStateModel {
        GameStateModel {
            msg_type: self.msg_type@,
            decision: self.decision.deep_view(),
            player: self.player.deep_view(),
            context: self.context.deep_view(),
            hand: self.hand.deep_view(),
            enemies: self.enemies.deep_view(),
            osty: self.osty.deep_view(),
            energy: self.energy,
            round: self.round,
            choices: self.choices.deep_view(),
            cards: self.cards.deep_view(),
            options: self.options.deep_view(),
            potions: self.potions.deep_view(),
            card_removal_cost: self.card_removal_cost,
            min_select: self.min_select,
            max_select: self.max_select,
            victory: self.victory,
            message: self.message.deep_view(),
            version: self.version.deep_view(),
        }
    }
}

/// A message of type `msg_type` with nothing else set.
pub open spec fn bare_state(msg_type: Seq<char>) -> GameStateModel {
    GameStateModel {
        msg_type,
        decision: None,
        player: None,
        context: None,
        hand: None,
        enemies: None,
        osty: None,
        energy: None,
        round: None,
        choices: None,
        cards: None,
        options: None,
        potions: None,
        card_removal_cost: None,
        min_select: None,
        max_select: None,
        victory: None,
        message: None,
        version: None,
    }
}

impl GameState {
    /// A message of type `msg_type` with nothing else set.
    pub fn bare(msg_type: &str) -> (r: Self)
        ensures
            r.deep_view() == bare_state(msg_type@),
    {
        GameState {
            msg_type: msg_type.to_owned(),
            decision: None,
            player: None,
            context: None,
            hand: None,
            enemies: None,
            osty: None,
            energy: None,
            round: None,
            choices: None,
            cards: None,
            options: None,
            potions: None,
            card_removal_cost: None,
            min_select: None,
            max_select: None,
            victory: None,
            message: None,
            version: None,
        }
    }

    /// Whether this is the simulator's start-up message.
    pub fn is_ready(&self) -> (r: bool)
        ensures
            r == (self.msg_type@ == "ready"@),
    {
        self.msg_type == "ready".to_owned()
    }

    /// Whether this is an error message.
    pub fn is_error(&self) -> (r: bool)
        ensures
            r == (self.msg_type@ == "error"@),
    {
        self.msg_type == "error".to_owned()
    }

    /// The pending decision, or the message type when there is none.
    pub fn decision_name(&self) -> (r: &str)
        ensures
            r@ == match self.decision {
                Some(d) => d@,
                None => self.msg_type@,
            },
    {
        if let Some(d) = &self.decision {
            d.as_str()
        } else {
            self.msg_type.as_str()
        }
    }
}

impl Default for GameState {
    fn default() -> (r: Self)
        ensures
            r.deep_view() == bare_state(Seq::empty()),
    {
        proof {
            reveal_strlit("");
        }
        assert(""@ =~= Seq::<char>::empty());
        GameState::bare("")
    }
}

} // verus!
