//! Turns the raw tokens of one command invocation into typed matches, judged
//! against the owning plugin's declared schema. The grammar is the one the
//! host promises plugins: a `Boolean` argument is a presence flag, `String`,
//! `Integer` and `Float` are `--name value` options whose values are checked
//! and kept as text, and a single `Positional` argument is bound to the first
//! bare token.

use vstd::prelude::*;
use crate::api::{ArgType, CommandArg, CommandMatches, PluginCommand};
use crate::assoc::AssocList;
use crate::text::{
    is_decimal_token, is_integer_token, spec_is_decimal_token, spec_is_integer_token, str_eq,
};
use vstd::string::{StrSliceExecFns, StringExecFns};

verus! {

/// Why an invocation was rejected at the usage boundary.
#[derive(Debug)]
pub enum UsageError {
    /// A flag that no declared argument carries.
    UnknownArgument { name: String },
    /// A value option stood last, with nothing after it.
    MissingValue { name: String },
    /// The same argument was given twice.
    DuplicateArgument { name: String },
    /// A value that does not parse under the argument's declared type.
    InvalidValue { name: String, value: String },
    /// A bare token where no positional argument (or no further one) is declared.
    UnexpectedPositional { token: String },
    /// A required argument was not supplied.
    MissingRequiredArgument { name: String },
}

/// The specification-level shape of a [`UsageError`].
pub enum UsageIssue {
    UnknownArgument(Seq<char>),
    MissingValue(Seq<char>),
    DuplicateArgument(Seq<char>),
    InvalidValue(Seq<char>, Seq<char>),
    UnexpectedPositional(Seq<char>),
    MissingRequiredArgument(Seq<char>),
}

/// The shape a [`UsageError`] value describes.
pub open spec fn usage_issue_of(e: UsageError) -> UsageIssue {
    match e {
        UsageError::UnknownArgument { name } => UsageIssue::UnknownArgument(name@),
        UsageError::MissingValue { name } => UsageIssue::MissingValue(name@),
        UsageError::DuplicateArgument { name } => UsageIssue::DuplicateArgument(name@),
        UsageError::InvalidValue { name, value } => UsageIssue::InvalidValue(name@, value@),
        UsageError::UnexpectedPositional { token } => UsageIssue::UnexpectedPositional(token@),
        UsageError::MissingRequiredArgument { name } => UsageIssue::MissingRequiredArgument(name@),
    }
}

/// What matching an invocation yields: the resolved argument map, or the
/// first usage issue the scan meets.
pub enum MatchOutcome {
    Matched(Map<Seq<char>, Seq<char>>),
    Rejected(UsageIssue),
}

/// A token addresses a flag when it is `--` followed by a nonempty name.
pub open spec fn spec_is_flag_token(t: Seq<char>) -> bool {
    t.len() > 2 && t[0] == '-' && t[1] == '-'
}

/// The name a flag token addresses.
pub open spec fn spec_flag_name(t: Seq<char>) -> Seq<char> {
    t.skip(2)
}

/// The first declared non-positional argument carrying `name`, scanning from
/// position `k`.
pub open spec fn spec_find_flag_from(args: Seq<CommandArg>, name: Seq<char>, k: int) -> Option<int>
    decreases args.len() - k,
{
    if k < 0 || k >= args.len() {
        None
    } else if args[k].name@ == name && args[k].arg_type != ArgType::Positional {
        Some(k)
    } else {
        spec_find_flag_from(args, name, k + 1)
    }
}

/// The first declared positional argument, scanning from position `k`.
pub open spec fn spec_find_positional_from(args: Seq<CommandArg>, k: int) -> Option<int>
    decreases args.len() - k,
{
    if k < 0 || k >= args.len() {
        None
    } else if args[k].arg_type == ArgType::Positional {
        Some(k)
    } else {
        spec_find_positional_from(args, k + 1)
    }
}

/// The first required argument, from position `k` on, that `acc` does not
/// bind.
pub open spec fn spec_missing_required_from(
    args: Seq<CommandArg>,
    acc: Map<Seq<char>, Seq<char>>,
    k: int,
) -> Option<Seq<char>>
    decreases args.len() - k,
{
    if k < 0 || k >= args.len() {
        None
    } else if args[k].required && !acc.contains_key(args[k].name@) {
        Some(args[k].name@)
    } else {
        spec_missing_required_from(args, acc, k + 1)
    }
}

/// One invocation scan, from token `i` with the bindings gathered so far:
/// flags bind their declared argument, a bare token binds the declared
/// positional, and when the tokens run out every required argument must be
/// bound.
pub open spec fn spec_scan(
    args: Seq<CommandArg>,
    tokens: Seq<Seq<char>>,
    i: int,
    acc: Map<Seq<char>, Seq<char>>,
    pos_used: bool,
) -> MatchOutcome
    decreases tokens.len() - i,
{
    if i < 0 || i >= tokens.len() {
        match spec_missing_required_from(args, acc, 0) {
            Some(name) => MatchOutcome::Rejected(UsageIssue::MissingRequiredArgument(name)),
            None => MatchOutcome::Matched(acc),
        }
    } else {
        let t = tokens[i];
        if spec_is_flag_token(t) {
            let name = spec_flag_name(t);
            match spec_find_flag_from(args, name, 0) {
                None => MatchOutcome::Rejected(UsageIssue::UnknownArgument(name)),
                Some(j) => if acc.contains_key(name) {
                    MatchOutcome::Rejected(UsageIssue::DuplicateArgument(name))
                } else {
                    match args[j].arg_type {
                        ArgType::Boolean => spec_scan(
                            args,
                            tokens,
                            i + 1,
                            acc.insert(name, "true"@),
                            pos_used,
                        ),
                        ArgType::String => if i + 1 >= tokens.len() {
                            MatchOutcome::Rejected(UsageIssue::MissingValue(name))
                        } else {
                            spec_scan(args, tokens, i + 2, acc.insert(name, tokens[i + 1]), pos_used)
                        },
                        ArgType::Integer => if i + 1 >= tokens.len() {
                            MatchOutcome::Rejected(UsageIssue::MissingValue(name))
                        } else if !spec_is_integer_token(tokens[i + 1]) {
                            MatchOutcome::Rejected(UsageIssue::InvalidValue(name, tokens[i + 1]))
                        } else {
                            spec_scan(args, tokens, i + 2, acc.insert(name, tokens[i + 1]), pos_used)
                        },
                        ArgType::Float => if i + 1 >= tokens.len() {
                            MatchOutcome::Rejected(UsageIssue::MissingValue(name))
                        } else if !spec_is_decimal_token(tokens[i + 1]) {
                            MatchOutcome::Rejected(UsageIssue::InvalidValue(name, tokens[i + 1]))
                        } else {
                            spec_scan(args, tokens, i + 2, acc.insert(name, tokens[i + 1]), pos_used)
                        },
                        ArgType::Positional => MatchOutcome::Rejected(
                            UsageIssue::UnknownArgument(name),
                        ),
                    }
                },
            }
        } else {
            if pos_used {
                MatchOutcome::Rejected(UsageIssue::UnexpectedPositional(t))
            } else {
                match spec_find_positional_from(args, 0) {
                    None => MatchOutcome::Rejected(UsageIssue::UnexpectedPositional(t)),
                    Some(j) => if acc.contains_key(args[j].name@) {
                        MatchOutcome::Rejected(UsageIssue::DuplicateArgument(args[j].name@))
                    } else {
                        spec_scan(args, tokens, i + 1, acc.insert(args[j].name@, t), true)
                    },
                }
            }
        }
    }
}

/// What matching a whole invocation against a command's schema yields.
pub open spec fn spec_match(args: Seq<CommandArg>, tokens: Seq<Seq<char>>) -> MatchOutcome {
    spec_scan(args, tokens, 0, Map::empty(), false)
}

/// The character-sequence view of a string-valued argument map.
pub open spec fn str_map_view(m: Map<Seq<char>, String>) -> Map<Seq<char>, Seq<char>> {
    m.map_values(|s: String| s@)
}

proof fn lemma_str_map_view_insert(m: Map<Seq<char>, String>, k: Seq<char>, v: String)
    ensures
        str_map_view(m.insert(k, v)) == str_map_view(m).insert(k, v@),
{
    assert(str_map_view(m.insert(k, v)) =~= str_map_view(m).insert(k, v@));
}

proof fn lemma_str_map_view_dom(m: Map<Seq<char>, String>, k: Seq<char>)
    ensures
        str_map_view(m).contains_key(k) == m.contains_key(k),
{
}

/// Decides [`spec_is_flag_token`].
fn is_flag_token(t: &str) -> (r: bool)
    ensures
        r == spec_is_flag_token(t@),
{
    let len = t.unicode_len();
    len > 2 && t.get_char(0) == '-' && t.get_char(1) == '-'
}

proof fn lemma_find_flag_hit(args: Seq<CommandArg>, name: Seq<char>, k: int, j: int)
    requires
        0 <= k <= j < args.len(),
        forall|a: int|
            k <= a < j ==> !((#[trigger] args[a]).name@ == name && args[a].arg_type
                != ArgType::Positional),
        args[j].name@ == name,
        args[j].arg_type != ArgType::Positional,
    ensures
        spec_find_flag_from(args, name, k) == Some(j),
    decreases j - k,
{
    if k < j {
        lemma_find_flag_hit(args, name, k + 1, j);
    }
}

proof fn lemma_find_flag_miss(args: Seq<CommandArg>, name: Seq<char>, k: int)
    requires
        0 <= k,
        forall|a: int|
            k <= a < args.len() ==> !((#[trigger] args[a]).name@ == name && args[a].arg_type
                != ArgType::Positional),
    ensures
        spec_find_flag_from(args, name, k) is None,
    decreases args.len() - k,
{
    if k < args.len() {
        lemma_find_flag_miss(args, name, k + 1);
    }
}

/// The first non-positional argument named `name`, as the schema declares it.
fn find_flag(args: &Vec<CommandArg>, name: &str) -> (r: Option<usize>)
    ensures
        match r {
            Some(j) => j < args@.len() && spec_find_flag_from(args@, name@, 0) == Some(j as int)
                && args@[j as int].name@ == name@ && args@[j as int].arg_type
                != ArgType::Positional,
            None => spec_find_flag_from(args@, name@, 0) is None,
        },
{
    let n = args.len();
    let mut k: usize = 0;
    while k < n
        invariant
            n == args@.len(),
            k <= n,
            forall|a: int|
                0 <= a < k ==> !((#[trigger] args@[a]).name@ == name@ && args@[a].arg_type
                    != ArgType::Positional),
        decreases n - k,
    {
        let is_positional = match args[k].arg_type {
            ArgType::Positional => true,
            _ => false,
        };
        if !is_positional && str_eq(args[k].name.as_str(), name) {
            proof {
                lemma_find_flag_hit(args@, name@, 0, k as int);
            }
            return Some(k);
        }
        k += 1;
    }
    proof {
        lemma_find_flag_miss(args@, name@, 0);
    }
    None
}

proof fn lemma_find_positional_hit(args: Seq<CommandArg>, k: int, j: int)
    requires
        0 <= k <= j < args.len(),
        forall|a: int| k <= a < j ==> (#[trigger] args[a]).arg_type != ArgType::Positional,
        args[j].arg_type == ArgType::Positional,
    ensures
        spec_find_positional_from(args, k) == Some(j),
    decreases j - k,
{
    if k < j {
        lemma_find_positional_hit(args, k + 1, j);
    }
}

proof fn lemma_find_positional_miss(args: Seq<CommandArg>, k: int)
    requires
        0 <= k,
        forall|a: int| k <= a < args.len() ==> (#[trigger] args[a]).arg_type != ArgType::Positional,
    ensures
        spec_find_positional_from(args, k) is None,
    decreases args.len() - k,
{
    if k < args.len() {
        lemma_find_positional_miss(args, k + 1);
    }
}

/// The first positional argument the schema declares.
fn find_positional(args: &Vec<CommandArg>) -> (r: Option<usize>)
    ensures
        match r {
            Some(j) => j < args@.len() && spec_find_positional_from(args@, 0) == Some(j as int)
                && args@[j as int].arg_type == ArgType::Positional,
            None => spec_find_positional_from(args@, 0) is None,
        },
{
    let n = args.len();
    let mut k: usize = 0;
    while k < n
        invariant
            n == args@.len(),
            k <= n,
            forall|a: int| 0 <= a < k ==> (#[trigger] args@[a]).arg_type != ArgType::Positional,
        decreases n - k,
    {
        let is_positional = match args[k].arg_type {
            ArgType::Positional => true,
            _ => false,
        };
        if is_positional {
            proof {
                lemma_find_positional_hit(args@, 0, k as int);
            }
            return Some(k);
        }
        k += 1;
    }
    proof {
        lemma_find_positional_miss(args@, 0);
    }
    None
}

proof fn lemma_missing_required_hit(
    args: Seq<CommandArg>,
    acc: Map<Seq<char>, Seq<char>>,
    k: int,
    j: int,
)
    requires
        0 <= k <= j < args.len(),
        forall|a: int|
            k <= a < j ==> !((#[trigger] args[a]).required && !acc.contains_key(args[a].name@)),
        args[j].required,
        !acc.contains_key(args[j].name@),
    ensures
        spec_missing_required_from(args, acc, k) == Some(args[j].name@),
    decreases j - k,
{
    if k < j {
        lemma_missing_required_hit(args, acc, k + 1, j);
    }
}

proof fn lemma_missing_required_miss(args: Seq<CommandArg>, acc: Map<Seq<char>, Seq<char>>, k: int)
    requires
        0 <= k,
        forall|a: int|
            k <= a < args.len() ==> !((#[trigger] args[a]).required && !acc.contains_key(
                args[a].name@,
            )),
    ensures
        spec_missing_required_from(args, acc, k) is None,
    decreases args.len() - k,
{
    if k < args.len() {
        lemma_missing_required_miss(args, acc, k + 1);
    }
}

/// A schema with a single required non-positional argument rejects every
/// invocation that never addresses that argument: the scan ends in a usage
/// error, so no event is ever fired for it.
pub proof fn lemma_required_arg_omitted(
    arg: CommandArg,
    tokens: Seq<Seq<char>>,
    i: int,
    acc: Map<Seq<char>, Seq<char>>,
    pos_used: bool,
)
    requires
        arg.required,
        arg.arg_type != ArgType::Positional,
        0 <= i,
        !acc.contains_key(arg.name@),
        forall|t: int|
            i <= t < tokens.len() ==> !(spec_is_flag_token(#[trigger] tokens[t]) && spec_flag_name(
                tokens[t],
            ) == arg.name@),
    ensures
        spec_scan(seq![arg], tokens, i, acc, pos_used) is Rejected,
{
    let args = seq![arg];
    if i >= tokens.len() {
        assert(spec_missing_required_from(args, acc, 0) == Some(arg.name@));
    } else {
        let t = tokens[i];
        if spec_is_flag_token(t) {
            let name = spec_flag_name(t);
            assert(name != arg.name@);
            assert(spec_find_flag_from(args, name, 1) is None);
            assert(spec_find_flag_from(args, name, 0) is None);
        } else {
            if !pos_used {
                assert(spec_find_positional_from(args, 1) is None);
                assert(spec_find_positional_from(args, 0) is None);
            }
        }
    }
}

/// A schema with a single required string argument accepts the invocation
/// that supplies it as `--name value`, and the resolved matches carry
/// exactly that one key with the supplied value.
pub proof fn lemma_required_string_supplied(arg: CommandArg, value: Seq<char>)
    requires
        arg.arg_type == ArgType::String,
        arg.name@.len() > 0,
    ensures
        spec_match(seq![arg], seq![seq!['-', '-'] + arg.name@, value]) == MatchOutcome::Matched(
            Map::<Seq<char>, Seq<char>>::empty().insert(arg.name@, value),
        ),
{
    let args = seq![arg];
    let t0 = seq!['-', '-'] + arg.name@;
    let tokens = seq![t0, value];
    assert(t0.len() == 2 + arg.name@.len());
    assert(t0[0] == '-' && t0[1] == '-');
    assert(spec_is_flag_token(t0));
    assert(spec_flag_name(t0) =~= arg.name@);
    assert(spec_find_flag_from(args, arg.name@, 0) == Some(0int));
    let acc = Map::<Seq<char>, Seq<char>>::empty().insert(arg.name@, value);
    assert(spec_scan(args, tokens, 0, Map::empty(), false) == spec_scan(args, tokens, 2, acc, false));
    assert(spec_missing_required_from(args, acc, 1) is None);
    assert(spec_missing_required_from(args, acc, 0) is None);
    assert(spec_scan(args, tokens, 2, acc, false) == MatchOutcome::Matched(acc));
}

/// A single boolean argument is a presence flag: passing `--name` binds the
/// name to the text `true`.
pub proof fn lemma_boolean_flag_present(arg: CommandArg)
    requires
        arg.arg_type == ArgType::Boolean,
        arg.name@.len() > 0,
    ensures
        spec_match(seq![arg], seq![seq!['-', '-'] + arg.name@]) == MatchOutcome::Matched(
            Map::<Seq<char>, Seq<char>>::empty().insert(arg.name@, "true"@),
        ),
{
    let args = seq![arg];
    let t0 = seq!['-', '-'] + arg.name@;
    let tokens = seq![t0];
    assert(t0.len() == 2 + arg.name@.len());
    assert(t0[0] == '-' && t0[1] == '-');
    assert(spec_is_flag_token(t0));
    assert(spec_flag_name(t0) =~= arg.name@);
    assert(spec_find_flag_from(args, arg.name@, 0) == Some(0int));
    let acc = Map::<Seq<char>, Seq<char>>::empty().insert(arg.name@, "true"@);
    assert(spec_scan(args, tokens, 0, Map::empty(), false) == spec_scan(args, tokens, 1, acc, false));
    assert(spec_missing_required_from(args, acc, 1) is None);
    assert(spec_missing_required_from(args, acc, 0) is None);
}

/// A single optional boolean argument that is not passed stays absent: the
/// matches carry no entry for the name at all.
pub proof fn lemma_boolean_flag_absent(arg: CommandArg)
    requires
        arg.arg_type == ArgType::Boolean,
        !arg.required,
    ensures
        spec_match(seq![arg], Seq::empty()) == MatchOutcome::Matched(
            Map::<Seq<char>, Seq<char>>::empty(),
        ),
        !Map::<Seq<char>, Seq<char>>::empty().contains_key(arg.name@),
{
    let args = seq![arg];
    assert(spec_missing_required_from(args, Map::<Seq<char>, Seq<char>>::empty(), 1) is None);
    assert(spec_missing_required_from(args, Map::<Seq<char>, Seq<char>>::empty(), 0) is None);
}

/// Matches one invocation's tokens against a command's schema: the typed
/// matches exactly as [`spec_match`] describes them, or the first usage
/// issue met.
pub fn match_command(cmd: &PluginCommand, tokens: &Vec<String>) -> (r: Result<
    CommandMatches,
    UsageError,
>)
    ensures
        match r {
            Ok(m) => {
                &&& m.command_name@ == cmd.name@
                &&& m.args.wf()
                &&& spec_match(cmd.args@, tokens.deep_view()) == MatchOutcome::Matched(
                    str_map_view(m.args@),
                )
            },
            Err(e) => spec_match(cmd.args@, tokens.deep_view()) == MatchOutcome::Rejected(
                usage_issue_of(e),
            ),
        },
{
    let ghost toks: Seq<Seq<char>> = tokens.deep_view();
    proof {
        assert(forall|a: int| 0 <= a < tokens@.len() ==> #[trigger] toks[a] == tokens@[a]@);
        assert(toks.len() == tokens@.len());
    }
    let n = tokens.len();
    let mut matches: AssocList<String> = AssocList::new();
    let mut pos_used: bool = false;
    let mut i: usize = 0;
    proof {
        assert(str_map_view(matches@) =~= Map::<Seq<char>, Seq<char>>::empty());
    }
    while i < n
        invariant
            n == tokens@.len(),
            toks == tokens.deep_view(),
            toks.len() == n,
            forall|a: int| 0 <= a < n ==> #[trigger] toks[a] == tokens@[a]@,
            i <= n,
            matches.wf(),
            spec_scan(cmd.args@, toks, 0, Map::empty(), false) == spec_scan(
                cmd.args@,
                toks,
                i as int,
                str_map_view(matches@),
                pos_used,
            ),
        decreases n - i,
    {
        let ghost acc = str_map_view(matches@);
        let ghost before = matches@;
        let t = &tokens[i];
        if is_flag_token(t.as_str()) {
            let tlen = t.as_str().unicode_len();
            let flag = t.as_str().substring_char(2, tlen);
            proof {
                assert(flag@ == spec_flag_name(toks[i as int]));
            }
            match find_flag(&cmd.args, flag) {
                None => {
                    return Err(UsageError::UnknownArgument { name: String::from_str(flag) });
                },
                Some(j) => {
                    let key = cmd.args[j].name.as_str();
                    proof {
                        assert(key@ == flag@);
                        lemma_str_map_view_dom(before, key@);
                    }
                    if matches.get(key).is_some() {
                        return Err(
                            UsageError::DuplicateArgument { name: String::from_str(flag) },
                        );
                    }
                    match cmd.args[j].arg_type {
                        ArgType::Boolean => {
                            let value = String::from_str("true");
                            let ghost gv = value;
                            matches.set(key, value);
                            proof {
                                lemma_str_map_view_insert(before, key@, gv);
                            }
                            i += 1;
                        },
                        ArgType::String => {
                            if i + 1 >= n {
                                return Err(
                                    UsageError::MissingValue { name: String::from_str(flag) },
                                );
                            }
                            let value = tokens[i + 1].clone();
                            let ghost gv = value;
                            matches.set(key, value);
                            proof {
                                lemma_str_map_view_insert(before, key@, gv);
                            }
                            i += 2;
                        },
                        ArgType::Integer => {
                            if i + 1 >= n {
                                return Err(
                                    UsageError::MissingValue { name: String::from_str(flag) },
                                );
                            }
                            if !is_integer_token(tokens[i + 1].as_str()) {
                                return Err(
                                    UsageError::InvalidValue {
                                        name: String::from_str(flag),
                                        value: tokens[i + 1].clone(),
                                    },
                                );
                            }
                            let value = tokens[i + 1].clone();
                            let ghost gv = value;
                            matches.set(key, value);
                            proof {
                                lemma_str_map_view_insert(before, key@, gv);
                            }
                            i += 2;
                        },
                        ArgType::Float => {
                            if i + 1 >= n {
                                return Err(
                                    UsageError::MissingValue { name: String::from_str(flag) },
                                );
                            }
                            if !is_decimal_token(tokens[i + 1].as_str()) {
                                return Err(
                                    UsageError::InvalidValue {
                                        name: String::from_str(flag),
                                        value: tokens[i + 1].clone(),
                                    },
                                );
                            }
                            let value = tokens[i + 1].clone();
                            let ghost gv = value;
                            matches.set(key, value);
                            proof {
                                lemma_str_map_view_insert(before, key@, gv);
                            }
                            i += 2;
                        },
                        ArgType::Positional => {
                            return Err(
                                UsageError::UnknownArgument { name: String::from_str(flag) },
                            );
                        },
                    }
                },
            }
        } else {
            if pos_used {
                return Err(UsageError::UnexpectedPositional { token: tokens[i].clone() });
            }
            match find_positional(&cmd.args) {
                None => {
                    return Err(UsageError::UnexpectedPositional { token: tokens[i].clone() });
                },
                Some(j) => {
                    let key = cmd.args[j].name.as_str();
                    proof {
                        lemma_str_map_view_dom(before, key@);
                    }
                    if matches.get(key).is_some() {
                        return Err(
                            UsageError::DuplicateArgument { name: cmd.args[j].name.clone() },
                        );
                    }
                    let value = tokens[i].clone();
                    let ghost gv = value;
                    matches.set(key, value);
                    proof {
                        lemma_str_map_view_insert(before, key@, gv);
                    }
                    pos_used = true;
                    i += 1;
                },
            }
        }
    }
    // every token consumed: check the required arguments, in declaration order
    let argc = cmd.args.len();
    let mut k: usize = 0;
    while k < argc
        invariant
            argc == cmd.args@.len(),
            k <= argc,
            matches.wf(),
            spec_scan(cmd.args@, toks, 0, Map::empty(), false) == spec_scan(
                cmd.args@,
                toks,
                toks.len() as int,
                str_map_view(matches@),
                pos_used,
            ),
            toks == tokens.deep_view(),
            forall|a: int|
                0 <= a < k ==> !((#[trigger] cmd.args@[a]).required && !str_map_view(
                    matches@,
                ).contains_key(cmd.args@[a].name@)),
        decreases argc - k,
    {
        if cmd.args[k].required {
            proof {
                lemma_str_map_view_dom(matches@, cmd.args@[k as int].name@);
            }
            if matches.get(cmd.args[k].name.as_str()).is_none() {
                proof {
                    lemma_missing_required_hit(
                        cmd.args@,
                        str_map_view(matches@),
                        0,
                        k as int,
                    );
                }
                return Err(
                    UsageError::MissingRequiredArgument { name: cmd.args[k].name.clone() },
                );
            }
        }
        k += 1;
    }
    proof {
        lemma_missing_required_miss(cmd.args@, str_map_view(matches@), 0);
    }
    Ok(CommandMatches { command_name: cmd.name.clone(), args: matches })
}

} // verus!
