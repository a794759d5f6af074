//! The nix plugin's decisions. Its `nix` command initializes a flake
//! development-environment template, judged against the template directory
//! listing fetched from the template repository. Fetching is network work
//! the surrounding program performs; everything the plugin decides from the
//! fetched listing is here, verified.

use vstd::prelude::*;
use crate::api::{ArgType, CommandArg, CommandMatches, PluginCommand, PluginMetadata};
use crate::text::{starts_with_char, str_eq};
use vstd::string::StringExecFns;

verus! {

/// The descriptor of the nix plugin.
pub fn nix_metadata() -> (m: PluginMetadata)
    ensures
        m.name@ == "Nix"@,
        m.essential == false,
{
    PluginMetadata {
        name: String::from_str("Nix"),
        description: String::from_str("Nix plugin"),
        version: String::from_str("0.1.0"),
        author: String::from_str("dark1zinn"),
        essential: false,
    }
}

/// The one command the nix plugin declares: `nix`, with a required
/// `template` string.
pub fn nix_commands() -> (commands: Vec<PluginCommand>)
    ensures
        commands@.len() == 1,
        commands@[0].name@ == "nix"@,
        commands@[0].args@.len() == 1,
        commands@[0].args@[0].name@ == "template"@,
        commands@[0].args@[0].required == true,
        commands@[0].args@[0].arg_type == ArgType::String,
{
    let mut args: Vec<CommandArg> = Vec::new();
    args.push(
        CommandArg {
            name: String::from_str("template"),
            description: String::from_str(
                "Initialize a nix flake dev environment template, pass the name of the template from the-nix-way/dev-templates",
            ),
            required: true,
            arg_type: ArgType::String,
        },
    );
    let mut commands: Vec<PluginCommand> = Vec::new();
    commands.push(
        PluginCommand {
            name: String::from_str("nix"),
            description: String::from_str("Nix command"),
            args,
        },
    );
    commands
}

/// An item of the fetched repository listing is a template when it is a
/// directory and its name is not hidden.
pub open spec fn spec_is_template_item(name: Seq<char>, kind: Seq<char>) -> bool {
    kind == "dir"@ && !(name.len() > 0 && name[0] == '.')
}

/// Keeps, of a fetched repository listing of `(name, kind)` items, the names
/// of the template directories, in order.
pub fn filter_templates(items: &Vec<(String, String)>) -> (r: Vec<String>)
    ensures
        r.deep_view() == items@.filter(
            |p: (String, String)| spec_is_template_item(p.0@, p.1@),
        ).map_values(|p: (String, String)| p.0@),
{
    let n = items.len();
    let mut r: Vec<String> = Vec::new();
    let mut i: usize = 0;
    proof {
        assert(items@.take(0) =~= Seq::<(String, String)>::empty());
        assert(r.deep_view() =~= items@.take(0).filter(
            |p: (String, String)| spec_is_template_item(p.0@, p.1@),
        ).map_values(|p: (String, String)| p.0@));
    }
    while i < n
        invariant
            n == items@.len(),
            i <= n,
            r.deep_view() == items@.take(i as int).filter(
                |p: (String, String)| spec_is_template_item(p.0@, p.1@),
            ).map_values(|p: (String, String)| p.0@),
        decreases n - i,
    {
        let ghost pre = r.deep_view();
        let is_dir = str_eq(items[i].1.as_str(), "dir");
        let hidden = starts_with_char(items[i].0.as_str(), '.');
        if is_dir && !hidden {
            let name = items[i].0.clone();
            let ghost gname = name@;
            r.push(name);
            proof {
                assert(r.deep_view() =~= pre.push(gname));
            }
        }
        proof {
            reveal_with_fuel(Seq::filter, 2);
            assert(items@.take(i + 1).drop_last() =~= items@.take(i as int));
            assert(items@.take(i + 1).last() == items@[i as int]);
            assert(items@.take(i + 1).filter(
                |p: (String, String)| spec_is_template_item(p.0@, p.1@),
            ) =~= if spec_is_template_item(items@[i as int].0@, items@[i as int].1@) {
                items@.take(i as int).filter(
                    |p: (String, String)| spec_is_template_item(p.0@, p.1@),
                ).push(items@[i as int])
            } else {
                items@.take(i as int).filter(
                    |p: (String, String)| spec_is_template_item(p.0@, p.1@),
                )
            });
            assert(r.deep_view() =~= items@.take(i + 1).filter(
                |p: (String, String)| spec_is_template_item(p.0@, p.1@),
            ).map_values(|p: (String, String)| p.0@));
        }
        i += 1;
    }
    proof {
        assert(items@.take(n as int) =~= items@);
    }
    r
}

/// Whether a template name occurs in a fetched list.
pub open spec fn spec_has_template(templates: Seq<Seq<char>>, name: Seq<char>) -> bool {
    exists|i: int| 0 <= i < templates.len() && templates[i] == name
}

/// Decides [`spec_has_template`].
pub fn has_template(templates: &Vec<String>, name: &str) -> (r: bool)
    ensures
        r == spec_has_template(templates.deep_view(), name@),
{
    let n = templates.len();
    let mut i: usize = 0;
    while i < n
        invariant
            n == templates@.len(),
            i <= n,
            forall|j: int| 0 <= j < i ==> templates.deep_view()[j] != name@,
        decreases n - i,
    {
        if str_eq(templates[i].as_str(), name) {
            proof {
                assert(templates.deep_view()[i as int] == name@);
            }
            return true;
        }
        i += 1;
    }
    false
}

/// The template the invocation asks for: the `template` argument, or
/// `empty` when it is absent.
pub open spec fn spec_requested_template(m: &CommandMatches) -> Seq<char> {
    if m.args@.contains_key("template"@) {
        m.args@["template"@]@
    } else {
        "empty"@
    }
}

/// The lines one `nix` command execution produces, judged against the
/// fetched template list.
pub open spec fn spec_nix_lines(m: &CommandMatches, templates: Seq<Seq<char>>) -> Seq<Seq<char>> {
    if m.command_name@ == "nix"@ {
        if spec_has_template(templates, spec_requested_template(m)) {
            seq![
                "Initializing nix flake dev environment template: "@ + spec_requested_template(m),
            ]
        } else {
            seq![
                "Template not found!"@,
                "You may wanne check out the available templates at https://github.com/the-nix-way/dev-templates"@,
            ]
        }
    } else {
        seq!["Unknown command: "@ + m.command_name@]
    }
}

/// Executes one command against the fetched template list: exactly the lines
/// [`spec_nix_lines`] describes, in order.
pub fn nix_execute(matches: &CommandMatches, templates: &Vec<String>) -> (r: Vec<String>)
    requires
        matches.args.wf(),
    ensures
        r.deep_view() == spec_nix_lines(matches, templates.deep_view()),
{
    let mut out: Vec<String> = Vec::new();
    if str_eq(matches.command_name.as_str(), "nix") {
        let requested: &str = match matches.args.get("template") {
            Some(v) => v.as_str(),
            None => "empty",
        };
        if has_template(templates, requested) {
            let mut line = String::from_str(
                "Initializing nix flake dev environment template: ",
            );
            line.append(requested);
            let ghost l = line@;
            out.push(line);
            proof {
                assert(out.deep_view() =~= seq![l]);
            }
        } else {
            out.push(String::from_str("Template not found!"));
            out.push(
                String::from_str(
                    "You may wanne check out the available templates at https://github.com/the-nix-way/dev-templates",
                ),
            );
            proof {
                assert(out.deep_view() =~= spec_nix_lines(matches, templates.deep_view()));
            }
        }
    } else {
        let mut line = String::from_str("Unknown command: ");
        line.append(matches.command_name.as_str());
        let ghost l = line@;
        out.push(line);
        proof {
            assert(out.deep_view() =~= seq![l]);
        }
    }
    out
}

} // verus!
