//! The auto-start task definition: Task Scheduler XML for a logon task that
//! runs elevated, with the install path and account name escaped so neither
//! can break the document.

use vstd::prelude::*;

use crate::acl::Verdict;
use crate::text::utf16_units;
use crate::text::push_char;
use crate::util::wide;

verus! {

/// What one character becomes in XML text: the five reserved characters
/// turn into their entities, every other character stays.
pub open spec fn escape_char(c: char) -> Seq<char> {
    if c == '&' {
        "&amp;"@
    } else if c == '<' {
        "&lt;"@
    } else if c == '>' {
        "&gt;"@
    } else if c == '"' {
        "&quot;"@
    } else if c == '\'' {
        "&apos;"@
    } else {
        seq![c]
    }
}

/// `s` with every character escaped, in order.
pub open spec fn xml_escaped(s: Seq<char>) -> Seq<char>
    decreases s.len(),
{
    if s.len() == 0 {
        Seq::empty()
    } else {
        xml_escaped(s.drop_last()) + escape_char(s.last())
    }
}

/// A character XML reserves.
pub open spec fn reserved(c: char) -> bool {
    c == '&' || c == '<' || c == '>' || c == '"' || c == '\''
}

/// Escape the five characters XML reserves, so an install path cannot break
/// the document or inject elements into it.
pub fn xml_escape(raw: &str) -> (out: String)
    ensures
        out@ == xml_escaped(raw@),
{
    let mut out = String::new();
    let n = raw.unicode_len();
    let mut i: usize = 0;
    proof {
        reveal_strlit("&amp;");
        reveal_strlit("&lt;");
        reveal_strlit("&gt;");
        reveal_strlit("&quot;");
        reveal_strlit("&apos;");
    }
    while i < n
        invariant
            n == raw@.len(),
            i <= n,
            out@ == xml_escaped(raw@.take(i as int)),
        decreases n - i,
    {
        let ch = raw.get_char(i);
        proof {
            assert(raw@.take(i + 1).drop_last() =~= raw@.take(i as int));
            assert(raw@.take(i + 1).last() == ch);
        }
        if ch == '&' {
            out.append("&amp;");
        } else if ch == '<' {
            out.append("&lt;");
        } else if ch == '>' {
            out.append("&gt;");
        } else if ch == '"' {
            out.append("&quot;");
        } else if ch == '\'' {
            out.append("&apos;");
        } else {
            push_char(&mut out, ch);
            proof {
                assert(out@ =~= xml_escaped(raw@.take(i as int)) + seq![ch]);
            }
        }
        i = i + 1;
    }
    proof {
        assert(raw@.take(n as int) =~= raw@);
    }
    out
}

/// Escaping closes the injection route: the result holds no `<`, `>`, `"`
/// or `'`, so no element, tag end or attribute quote can come from the
/// input; and text without reserved characters is left alone.
pub proof fn lemma_escape_closes_injection(s: Seq<char>)
    ensures
        forall|i: int|
            0 <= i < xml_escaped(s).len() ==> {
                let c = #[trigger] xml_escaped(s)[i];
                c != '<' && c != '>' && c != '"' && c != '\''
            },
        (forall|i: int| 0 <= i < s.len() ==> !reserved(#[trigger] s[i])) ==> xml_escaped(s) == s,
    decreases s.len(),
{
    reveal_strlit("&amp;");
    reveal_strlit("&lt;");
    reveal_strlit("&gt;");
    reveal_strlit("&quot;");
    reveal_strlit("&apos;");
    if s.len() > 0 {
        let t = s.drop_last();
        lemma_escape_closes_injection(t);
        let a = xml_escaped(t);
        let b = escape_char(s.last());
        assert forall|i: int| 0 <= i < xml_escaped(s).len() implies {
            let c = #[trigger] xml_escaped(s)[i];
            c != '<' && c != '>' && c != '"' && c != '\''
        } by {
            if i < a.len() {
                assert(xml_escaped(s)[i] == a[i]);
            } else {
                assert(xml_escaped(s)[i] == b[i - a.len()]);
            }
        }
        if forall|i: int| 0 <= i < s.len() ==> !reserved(#[trigger] s[i]) {
            assert forall|i: int| 0 <= i < t.len() implies !reserved(#[trigger] t[i]) by {
                assert(t[i] == s[i]);
            }
            assert(!reserved(s[s.len() - 1]));
            assert(xml_escaped(s) =~= t.push(s.last()));
            assert(t.push(s.last()) =~= s);
        }
    } else {
        assert(xml_escaped(s) =~= s);
    }
}

pub const TASK_XML_HEAD: &'static str = "<?xml version=\"1.0\" encoding=\"UTF-16\"?>\n<Task version=\"1.2\" xmlns=\"http://schemas.microsoft.com/windows/2004/02/mit/task\">\n  <RegistrationInfo>\n    <Author>";

pub const TASK_XML_DESCRIPTION: &'static str = "</Author>\n    <Description>Starts Wira Desk when ";

pub const TASK_XML_PRINCIPAL: &'static str = " signs in.</Description>\n  </RegistrationInfo>\n  <Principals>\n    <Principal id=\"Author\">\n      <UserId>";

pub const TASK_XML_SETTINGS: &'static str = "</UserId>\n      <LogonType>InteractiveToken</LogonType>\n      <RunLevel>HighestAvailable</RunLevel>\n    </Principal>\n  </Principals>\n  <Settings>\n    <DisallowStartIfOnBatteries>false</DisallowStartIfOnBatteries>\n    <StopIfGoingOnBatteries>false</StopIfGoingOnBatteries>\n    <MultipleInstancesPolicy>IgnoreNew</MultipleInstancesPolicy>\n    <ExecutionTimeLimit>PT0S</ExecutionTimeLimit>\n    <Enabled>true</Enabled>\n  </Settings>\n  <Triggers>\n    <LogonTrigger>\n      <Enabled>true</Enabled>\n    </LogonTrigger>\n  </Triggers>\n  <Actions Context=\"Author\">\n    <Exec>\n      <Command>";

pub const TASK_XML_TAIL: &'static str = "</Command>\n    </Exec>\n  </Actions>\n</Task>\n";

/// The task definition: the fixed template with the escaped account name in
/// the author, description and principal, and the escaped, unquoted
/// executable path as the command.
pub open spec fn task_xml_spec(exe_path: Seq<char>, user: Seq<char>) -> Seq<char> {
    let who = xml_escaped(user);
    TASK_XML_HEAD@ + who + TASK_XML_DESCRIPTION@ + who + TASK_XML_PRINCIPAL@ + who
        + TASK_XML_SETTINGS@ + xml_escaped(exe_path) + TASK_XML_TAIL@
}

/// The task definition as Task Scheduler XML: runs at logon, elevated, on
/// battery too, never stopped for unplugging, with no execution time limit.
pub fn task_xml(exe_path: &str, user: &str) -> (xml: String)
    ensures
        xml@ == task_xml_spec(exe_path@, user@),
{
    let exe = xml_escape(exe_path);
    let who = xml_escape(user);
    let mut out = String::from_str(TASK_XML_HEAD);
    out.append(who.as_str());
    out.append(TASK_XML_DESCRIPTION);
    out.append(who.as_str());
    out.append(TASK_XML_PRINCIPAL);
    out.append(who.as_str());
    out.append(TASK_XML_SETTINGS);
    out.append(exe.as_str());
    out.append(TASK_XML_TAIL);
    out
}

/// The views of a list of strings.
pub open spec fn string_views(v: Seq<String>) -> Seq<Seq<char>> {
    v.map_values(|s: String| s@)
}

/// `s` between double quotes.
pub open spec fn quoted(s: Seq<char>) -> Seq<char> {
    "\""@ + s + "\""@
}

/// The `schtasks` arguments that register the logon task: the action is the
/// absolute path in explicit quotes, so a path with spaces stays one command;
/// it runs elevated as `username` and replaces an existing task.
pub open spec fn create_args_spec(task_name: Seq<char>, exe_path: Seq<char>, username: Seq<char>) -> Seq<Seq<char>> {
    seq![
        "/Create"@, "/TN"@, task_name, "/TR"@, quoted(exe_path), "/SC"@, "ONLOGON"@, "/RL"@,
        "HIGHEST"@, "/RU"@, username, "/F"@,
    ]
}

/// Arguments for `schtasks /Create` that register the auto-start task named
/// `task_name`. No working directory is set.
pub fn create_args(task_name: &str, exe_path: &str, username: &str) -> (args: Vec<String>)
    ensures
        string_views(args@) == create_args_spec(task_name@, exe_path@, username@),
{
    let mut path = String::from_str("\"");
    path.append(exe_path);
    path.append("\"");
    let mut args: Vec<String> = Vec::new();
    args.push(String::from_str("/Create"));
    args.push(String::from_str("/TN"));
    args.push(String::from_str(task_name));
    args.push(String::from_str("/TR"));
    args.push(path);
    args.push(String::from_str("/SC"));
    args.push(String::from_str("ONLOGON"));
    args.push(String::from_str("/RL"));
    args.push(String::from_str("HIGHEST"));
    args.push(String::from_str("/RU"));
    args.push(String::from_str(username));
    args.push(String::from_str("/F"));
    assert(string_views(args@) =~= create_args_spec(task_name@, exe_path@, username@));
    args
}

/// Arguments for `schtasks /Query` that check whether the task exists.
pub fn query_args(task_name: &str) -> (args: Vec<String>)
    ensures
        string_views(args@) == seq!["/Query"@, "/TN"@, task_name@],
{
    let mut args: Vec<String> = Vec::new();
    args.push(String::from_str("/Query"));
    args.push(String::from_str("/TN"));
    args.push(String::from_str(task_name));
    assert(string_views(args@) =~= seq!["/Query"@, "/TN"@, task_name@]);
    args
}

/// Arguments for `schtasks /Delete` that remove the task without asking.
pub fn delete_args(task_name: &str) -> (args: Vec<String>)
    ensures
        string_views(args@) == seq!["/Delete"@, "/TN"@, task_name@, "/F"@],
{
    let mut args: Vec<String> = Vec::new();
    args.push(String::from_str("/Delete"));
    args.push(String::from_str("/TN"));
    args.push(String::from_str(task_name));
    args.push(String::from_str("/F"));
    assert(string_views(args@) =~= seq!["/Delete"@, "/TN"@, task_name@, "/F"@]);
    args
}

/// The `schtasks` arguments that register the task named `task_name` from
/// the XML definition at `xml_path`, replacing an existing task.
pub fn create_xml_args(task_name: &str, xml_path: &str) -> (args: Vec<String>)
    ensures
        string_views(args@) == seq!["/Create"@, "/TN"@, task_name@, "/XML"@, xml_path@, "/F"@],
{
    let mut args: Vec<String> = Vec::new();
    args.push(String::from_str("/Create"));
    args.push(String::from_str("/TN"));
    args.push(String::from_str(task_name));
    args.push(String::from_str("/XML"));
    args.push(String::from_str(xml_path));
    args.push(String::from_str("/F"));
    assert(string_views(args@) =~= seq!["/Create"@, "/TN"@, task_name@, "/XML"@, xml_path@, "/F"@]);
    args
}

/// UTF-16 units as little-endian bytes, low byte first.
pub open spec fn le_bytes(units: Seq<u16>) -> Seq<u8> {
    Seq::new(
        2 * units.len(),
        |i: int|
            if i % 2 == 0 {
                (units[i / 2] % 256) as u8
            } else {
                (units[i / 2] / 256) as u8
            },
    )
}

/// The bytes of a task definition file: the UTF-16LE byte-order mark, then
/// the text in UTF-16LE, as the declared `encoding="UTF-16"` requires.
pub fn task_xml_bytes(xml: &str) -> (bytes: Vec<u8>)
    ensures
        bytes@ == seq![0xFFu8, 0xFEu8] + le_bytes(utf16_units(xml@)),
{
    let units = wide(xml);
    let ghost u = utf16_units(xml@);
    let n = units.len() - 1;
    let mut bytes: Vec<u8> = Vec::new();
    bytes.push(0xFF);
    bytes.push(0xFE);
    let mut i: usize = 0;
    while i < n
        invariant
            units@ == u.push(0u16),
            n == u.len(),
            i <= n,
            bytes@ == seq![0xFFu8, 0xFEu8] + le_bytes(u.take(i as int)),
        decreases n - i,
    {
        let w = units[i];
        bytes.push((w % 256) as u8);
        bytes.push((w / 256) as u8);
        proof {
            assert(u[i as int] == w);
            assert(le_bytes(u.take(i + 1)) =~= le_bytes(u.take(i as int)).push((w % 256) as u8).push(
                (w / 256) as u8,
            ));
            assert(bytes@ =~= seq![0xFFu8, 0xFEu8] + le_bytes(u.take(i + 1)));
        }
        i = i + 1;
    }
    proof {
        assert(u.take(n as int) =~= u);
    }
    bytes
}

/// The account named in the task: `domain\user` when both are known and
/// not empty, otherwise the user alone.
pub fn qualified_username(user: &str, domain: Option<&str>) -> (name: String)
    ensures
        name@ == match domain {
            Some(d) => if d@.len() > 0 && user@.len() > 0 {
                d@ + "\\"@ + user@
            } else {
                user@
            },
            None => user@,
        },
{
    match domain {
        Some(d) => {
            if d.unicode_len() > 0 && user.unicode_len() > 0 {
                let mut name = String::from_str(d);
                name.append("\\");
                name.append(user);
                name
            } else {
                String::from_str(user)
            }
        },
        None => String::from_str(user),
    }
}

/// Whether the task definition may be staged in a directory with this
/// verdict. Only an administrator-only directory qualifies: what the elevated
/// scheduler reads back runs elevated at every logon. An unreadable list
/// counts as unsafe.
pub fn may_stage_task_xml(directory: Verdict) -> (b: bool)
    ensures
        b == (directory == Verdict::AdminOnly),
{
    match directory {
        Verdict::AdminOnly => true,
        _ => false,
    }
}

} // verus!
