//! The umbrella tool: which tools there are, what they are called, and
//! where their builds are fetched from.

use crate::text::{chars_of, string_of};
use vstd::prelude::*;
use vstd::string::StringExecFns;

verus! {

/// The tools of the suite that a repository can be set up for.
#[derive(Debug, Clone, Copy, PartialEq, Eq, Structural)]
pub enum Tools {
    Hooked,
    Ticket,
}

/// The tool behind a box of the selection: the first box is for the hooks,
/// the second for the tickets.
pub open spec fn tool_of(selection: usize) -> Tools {
    if selection == 0 {
        Tools::Hooked
    } else {
        Tools::Ticket
    }
}

/// The tools behind the boxes that the user ticked, in the order of the
/// boxes.
pub fn selected_tools(selections: &Vec<usize>) -> (tools: Vec<Tools>)
    requires
        forall|i: int| 0 <= i < selections.len() ==> selections@[i] < 2,
    ensures
        tools@ == selections@.map_values(|s: usize| tool_of(s)),
{
    let mut tools: Vec<Tools> = Vec::new();
    let mut i: usize = 0;
    while i < selections.len()
        invariant
            i <= selections.len(),
            tools.len() == i,
            forall|j: int| 0 <= j < i ==> tools@[j] == tool_of(selections@[j]),
        decreases selections.len() - i,
    {
        tools.push(
            if selections[i] == 0 {
                Tools::Hooked
            } else {
                Tools::Ticket
            },
        );
        i += 1;
    }
    assert(tools@ =~= selections@.map_values(|s: usize| tool_of(s)));
    tools
}

/// The name of a tool's program.
pub open spec fn program_of(tool: Tools) -> Seq<char> {
    match tool {
        Tools::Hooked => "hooked"@,
        Tools::Ticket => "ticket"@,
    }
}

/// The name of a tool's program.
pub fn program(tool: Tools) -> (name: String)
    ensures
        name@ == program_of(tool),
{
    match tool {
        Tools::Hooked => String::from_str("hooked"),
        Tools::Ticket => String::from_str("ticket"),
    }
}

/// The label of a tool's box in the selection.
pub fn label(tool: Tools) -> (text: String)
    ensures
        text@ == match tool {
            Tools::Hooked => "hooked - Managed git hooks"@,
            Tools::Ticket => "ticket - In repo tickets"@,
        },
{
    match tool {
        Tools::Hooked => String::from_str("hooked - Managed git hooks"),
        Tools::Ticket => String::from_str("ticket - In repo tickets"),
    }
}

/// The systems that builds are made for.
#[derive(Debug, Clone, Copy, PartialEq, Eq, Structural)]
pub enum Platform {
    MacOs,
    Linux,
    Windows,
}

/// What a build for a system is marked with.
pub open spec fn platform_mark(platform: Platform) -> Seq<char> {
    match platform {
        Platform::MacOs => "osx"@,
        Platform::Linux => "linux"@,
        Platform::Windows => "windows"@,
    }
}

/// The name of the build of a tool for a system.
pub open spec fn build_of(tool: Tools, platform: Platform) -> Seq<char> {
    program_of(tool) + "_"@ + platform_mark(platform)
}

/// Where the build of that name is fetched from.
pub open spec fn url_of(build: Seq<char>) -> Seq<char> {
    "https://dev-suite-spaces.nyc3.digitaloceanspaces.com/"@ + build
}

/// The name of the build of `tool` for `platform`.
pub fn build_name(tool: Tools, platform: Platform) -> (name: String)
    ensures
        name@ == build_of(tool, platform),
{
    let mark = match platform {
        Platform::MacOs => "osx",
        Platform::Linux => "linux",
        Platform::Windows => "windows",
    };
    program(tool).concat("_").concat(mark)
}

/// Where the build called `build` is fetched from.
pub fn download_url(build: &str) -> (url: String)
    ensures
        url@ == url_of(build@),
{
    String::from_str("https://dev-suite-spaces.nyc3.digitaloceanspaces.com/").concat(build)
}

/// What stands before the first underscore of a text, or all of it where
/// it has none.
pub open spec fn stem_of(s: Seq<char>) -> Seq<char>
    decreases s.len(),
{
    if s.len() == 0 || s[0] == '_' {
        Seq::empty()
    } else {
        seq![s[0]] + stem_of(s.drop_first())
    }
}

/// The name under which the build called `build` is installed: what stands
/// before its first underscore.
pub fn installed_name(build: &str) -> (name: String)
    ensures
        name@ == stem_of(build@),
{
    let chars = chars_of(build);
    let mut out: Vec<char> = Vec::new();
    let mut i: usize = 0;
    assert(chars@.skip(0) =~= chars@);
    while i < chars.len() && chars[i] != '_'
        invariant
            i <= chars.len(),
            stem_of(chars@) == out@ + stem_of(chars@.skip(i as int)),
        decreases chars.len() - i,
    {
        let ghost rest = chars@.skip(i as int);
        assert(rest[0] == chars@[i as int]);
        assert(rest.drop_first() =~= chars@.skip(i + 1));
        out.push(chars[i]);
        assert(out@ + stem_of(chars@.skip(i + 1)) =~= out@.drop_last() + (seq![chars@[i as int]]
            + stem_of(chars@.skip(i + 1))));
        i += 1;
    }
    proof {
        let rest = chars@.skip(i as int);
        if i < chars.len() {
            assert(rest[0] == '_');
        }
        assert(stem_of(rest) =~= Seq::<char>::empty());
        assert(out@ + stem_of(rest) =~= out@);
    }
    string_of(&out)
}

} // verus!
