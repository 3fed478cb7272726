//! Connectors: programs beside the service that know a network. They name peers, and they
//! say which callers are let in.

use crate::address;
use crate::address::Ip;
use crate::json::{Json, JsonView};
use crate::jsontext;
use crate::jsontext::{parse_json, parse_value};
use crate::paths;
use crate::paths::{path_comes_before, PathPart, PathPartView};
use crate::text;
use crate::text::{starts_with, str_eq, text_lines, trim_end_matches, trim_start_matches};
use serde_json::Value;
use vstd::prelude::*;
use vstd::string::*;
use vstd::utf8;

verus! {

/// The name of a connector in a file with a given name: what is left of that name without the
/// prefix of all connectors and without the endings of programs. Where the file has no name,
/// or one that is no text, the connector is unknown.
pub open spec fn short_name(file_name: Option<Seq<char>>) -> Seq<char> {
    let file = match file_name {
        Some(name) => name,
        None => "unknown"@,
    };
    text::trim_end(
        text::trim_end(text::trim_start(file, "pi-mesh-"@), ".exe"@),
        ".js"@,
    )
}

/// The name of the connector in a file, given the last part of its path, where it has one
/// that is text. What the parts of a path are is up to the platform.
pub fn connector_name(file_name: Option<&str>) -> (r: String)
    ensures
        r@ == short_name(text::opt_str(file_name)),
{
    let file = match file_name {
        Some(name) => name,
        None => "unknown",
    };
    let bare = trim_start_matches(file, "pi-mesh-");
    trim_end_matches(trim_end_matches(bare, ".exe"), ".js").to_owned()
}

/// Whether the mode bits of a file let somebody run it. A file whose mode is not known is
/// not run.
pub fn is_executable(mode: Option<u32>) -> (r: bool)
    ensures
        r == (mode matches Some(m) && m & 0o111 != 0),
{
    match mode {
        Some(m) => m & 0o111 != 0,
        None => false,
    }
}

/// Whether an entry of a directory with a given name, where that is text, is a connector.
pub open spec fn counts(file_name: Option<Seq<char>>, is_file: bool, executable: bool) -> bool {
    match file_name {
        Some(name) => text::has_prefix(name, "pi-mesh-"@) && is_file && executable,
        None => false,
    }
}

/// Whether an entry of a directory is a connector, given its name, where that is text.
pub fn is_connector(file_name: Option<&str>, is_file: bool, executable: bool) -> (r: bool)
    ensures
        r == counts(text::opt_str(file_name), is_file, executable),
{
    match file_name {
        Some(name) => starts_with(name, "pi-mesh-") && is_file && executable,
        None => false,
    }
}

/// An entry of a directory in which connectors are looked for.
#[derive(Debug, PartialEq)]
pub struct Entry {
    pub file_name: Option<String>,
    pub is_file: bool,
    pub executable: bool,
    pub path: Vec<PathPart>,
}

impl Entry {
    /// Whether this is a connector.
    pub open spec fn is_connector(self) -> bool {
        counts(text::opt_text(self.file_name), self.is_file, self.executable)
    }

    /// The path of this entry.
    pub open spec fn place(self) -> Seq<PathPartView> {
        paths::path_view(self.path@)
    }
}

/// Whether entries are picked in the order of their paths, no path twice.
pub open spec fn in_path_order(picked: Seq<usize>, entries: Seq<Entry>) -> bool {
    forall|i: int, j: int|
        0 <= i < j < picked.len() ==> paths::path_before(
            entries[#[trigger] picked[i] as int].place(),
            entries[#[trigger] picked[j] as int].place(),
        )
}

/// Whether an entry with a given path is picked, at the place `k` or before it.
pub open spec fn picked_by(
    picked: Seq<usize>,
    entries: Seq<Entry>,
    path: Seq<PathPartView>,
    k: int,
) -> bool {
    exists|i: int|
        0 <= i < picked.len() && (#[trigger] picked[i]) <= k && entries[picked[i] as int].place()
            == path
}

/// Whether `picked` are the places of the connectors among the first `n` entries: in the order
/// of their paths, and each path once, where it occurs first.
pub open spec fn picks(picked: Seq<usize>, entries: Seq<Entry>, n: nat) -> bool {
    &&& forall|i: int|
        0 <= i < picked.len() ==> (#[trigger] picked[i]) < n
            && entries[picked[i] as int].is_connector()
    &&& in_path_order(picked, entries)
    &&& forall|k: int|
        0 <= k < n && (#[trigger] entries[k]).is_connector() ==> picked_by(
            picked,
            entries,
            entries[k].place(),
            k,
        )
}

/// The places of the connectors among some entries, in the order of their paths, each path
/// once.
pub fn find_connectors(entries: &Vec<Entry>) -> (picked: Vec<usize>)
    ensures
        picks(picked@, entries@, entries@.len()),
{
    let mut picked: Vec<usize> = Vec::new();
    let mut k: usize = 0;
    while k < entries.len()
        invariant
            k <= entries@.len(),
            picks(picked@, entries@, k as nat),
        decreases entries@.len() - k,
    {
        let name = match &entries[k].file_name {
            Some(name) => Some(name.as_str()),
            None => None,
        };
        if is_connector(name, entries[k].is_file, entries[k].executable) {
            pick(&mut picked, entries, k);
        }
        k = k + 1;
    }
    picked
}

/// How many of the picked entries come before the one at `k`.
fn place_among(picked: &Vec<usize>, entries: &Vec<Entry>, k: usize) -> (i: usize)
    requires
        k < entries@.len(),
        forall|j: int| 0 <= j < picked@.len() ==> (#[trigger] picked@[j]) < entries@.len(),
    ensures
        i <= picked@.len(),
        forall|j: int|
            0 <= j < i ==> paths::path_before(
                entries@[#[trigger] picked@[j] as int].place(),
                entries@[k as int].place(),
            ),
        i < picked@.len() ==> !paths::path_before(
            entries@[picked@[i as int] as int].place(),
            entries@[k as int].place(),
        ),
{
    let mut i: usize = 0;
    while i < picked.len() && path_comes_before(&entries[picked[i]].path, &entries[k].path)
        invariant
            i <= picked@.len(),
            k < entries@.len(),
            forall|j: int| 0 <= j < picked@.len() ==> (#[trigger] picked@[j]) < entries@.len(),
            forall|j: int|
                0 <= j < i ==> paths::path_before(
                    entries@[#[trigger] picked@[j] as int].place(),
                    entries@[k as int].place(),
                ),
        decreases picked@.len() - i,
    {
        i = i + 1;
    }
    i
}

/// Picks the connector at `k`, unless one with its path is picked already.
fn pick(picked: &mut Vec<usize>, entries: &Vec<Entry>, k: usize)
    requires
        k < entries@.len(),
        picks(old(picked)@, entries@, k as nat),
        entries@[k as int].is_connector(),
    ensures
        picks(final(picked)@, entries@, k as nat + 1),
{
    let i: usize = place_among(picked, entries, k);
    if i < picked.len() && !path_comes_before(&entries[k].path, &entries[picked[i]].path) {
        proof {
            lemma_pick_again(picked@, entries@, i as int, k);
        }
        return;
    }
    proof {
        lemma_pick_order(picked@, entries@, i as int, k);
        lemma_pick_all(picked@, entries@, i as int, k);
    }
    picked.insert(i, k);
}

/// A connector whose path is picked already changes nothing.
proof fn lemma_pick_again(picked: Seq<usize>, entries: Seq<Entry>, i: int, k: usize)
    requires
        0 <= i < picked.len(),
        k < entries.len(),
        picks(picked, entries, k as nat),
        !paths::path_before(entries[picked[i] as int].place(), entries[k as int].place()),
        !paths::path_before(entries[k as int].place(), entries[picked[i] as int].place()),
    ensures
        picks(picked, entries, k as nat + 1),
{
    paths::lemma_path_total(entries[picked[i] as int].place(), entries[k as int].place());
    assert(picked[i] <= k);
    assert(picked_by(picked, entries, entries[k as int].place(), k as int));
}

/// A path put between those before it and those behind it leaves the order intact.
proof fn lemma_pick_order(before: Seq<usize>, entries: Seq<Entry>, i: int, k: usize)
    requires
        0 <= i <= before.len(),
        in_path_order(before, entries),
        forall|j: int|
            0 <= j < i ==> paths::path_before(
                entries[#[trigger] before[j] as int].place(),
                entries[k as int].place(),
            ),
        i < before.len() ==> paths::path_before(
            entries[k as int].place(),
            entries[before[i] as int].place(),
        ),
    ensures
        in_path_order(before.insert(i, k), entries),
{
    let after = before.insert(i, k);
    assert forall|a: int, b: int| 0 <= a < b < after.len() implies paths::path_before(
        entries[#[trigger] after[a] as int].place(),
        entries[#[trigger] after[b] as int].place(),
    ) by {
        if b == i {
            assert(after[a] == before[a]);
        } else if a == i {
            assert(after[b] == before[b - 1]);
            if b - 1 > i {
                paths::lemma_path_trans(
                    entries[k as int].place(),
                    entries[before[i] as int].place(),
                    entries[before[b - 1] as int].place(),
                );
            }
        } else {
            let x = if a < i { a } else { a - 1 };
            let y = if b < i { b } else { b - 1 };
            assert(after[a] == before[x] && after[b] == before[y]);
        }
    }
}

/// Whatever is picked stays picked, and so is the entry that is put in.
proof fn lemma_pick_all(before: Seq<usize>, entries: Seq<Entry>, i: int, k: usize)
    requires
        0 <= i <= before.len(),
        k < entries.len(),
        entries[k as int].is_connector(),
        picks(before, entries, k as nat),
        in_path_order(before.insert(i, k), entries),
    ensures
        picks(before.insert(i, k), entries, k as nat + 1),
{
    let after = before.insert(i, k);
    assert forall|j: int| 0 <= j < after.len() implies (#[trigger] after[j]) <= k
        && entries[after[j] as int].is_connector() by {
        if j < i {
            assert(after[j] == before[j]);
        } else if j > i {
            assert(after[j] == before[j - 1]);
        }
    }
    assert forall|m: int| 0 <= m <= k && (#[trigger] entries[m]).is_connector() implies picked_by(
        after,
        entries,
        entries[m].place(),
        m,
    ) by {
        if m < k {
            let j = choose|j: int|
                0 <= j < before.len() && (#[trigger] before[j]) <= m
                    && entries[before[j] as int].place() == entries[m].place();
            let at = if j < i { j } else { j + 1 };
            assert(after[at] == before[j]);
        } else {
            assert(after[i] == k);
        }
    }
}

/// What a program that was run left behind.
#[derive(Debug, PartialEq)]
pub struct ProgramOutput {
    pub success: bool,
    pub stdout: Vec<u8>,
}

/// Whether a page lets a caller in.
pub open spec fn page_allows(page: JsonView) -> bool {
    match page.get("allow"@) {
        Some(v) => v.as_bool() == Some(true),
        None => false,
    }
}

/// Whether a page lets a caller in.
pub fn answer_allows(page: &Json) -> (r: bool)
    ensures
        r == page_allows(page@),
{
    match page.get("allow") {
        Some(v) => match v.as_bool() {
            Some(allow) => allow,
            None => false,
        },
        None => false,
    }
}

/// Whether a connector that was asked lets a caller in: it ran, it succeeded, and it says so
/// in JSON.
pub open spec fn output_allows(output: Option<ProgramOutput>) -> bool {
    match output {
        Some(o) => o.success && match jsontext::parsed_json(o.stdout@) {
            Some(page) => page_allows(page),
            None => false,
        },
        None => false,
    }
}

/// Whether a connector that was asked lets a caller in.
pub fn connector_allows(output: &Option<ProgramOutput>) -> (r: bool)
    ensures
        r == output_allows(*output),
{
    match output {
        Some(o) => {
            if !o.success {
                return false;
            }
            match parse_json(o.stdout.as_slice()) {
                Some(page) => answer_allows(&page),
                None => false,
            }
        },
        None => false,
    }
}

/// What is known of a caller: it is let in, it is not, or a connector is to be asked.
#[derive(Debug, PartialEq)]
pub enum AuthStep {
    Allow,
    Deny,
    Ask(usize),
}

/// Whether a caller is let in without asking: it calls from this machine, or the service
/// was told to trust everybody.
pub open spec fn trusted(ip: Ip, insecure: Option<Seq<char>>) -> bool {
    address::loopback(ip) || insecure == Some("1"@)
}

/// The first step in deciding about a caller.
pub open spec fn first_step(trusted: bool, connectors: nat) -> AuthStep {
    if trusted {
        AuthStep::Allow
    } else {
        ask_or_deny(0, connectors)
    }
}

/// Asks the connector at a place, if there is one there.
pub open spec fn ask_or_deny(place: nat, connectors: nat) -> AuthStep {
    if place < connectors {
        AuthStep::Ask(place as usize)
    } else {
        AuthStep::Deny
    }
}

/// The step after the connector at `asked` was asked.
pub open spec fn next_step(asked: nat, connectors: nat, allows: bool) -> AuthStep {
    if allows {
        AuthStep::Allow
    } else {
        ask_or_deny(asked + 1, connectors)
    }
}

/// The first step in deciding about a caller from `ip`.
pub fn authorize(ip: &Ip, insecure: Option<&str>, connectors: usize) -> (r: AuthStep)
    ensures
        r == first_step(trusted(*ip, text::opt_str(insecure)), connectors as nat),
{
    let everybody = match insecure {
        Some(s) => str_eq(s, "1"),
        None => false,
    };
    if ip.is_loopback() || everybody {
        AuthStep::Allow
    } else if connectors > 0 {
        AuthStep::Ask(0)
    } else {
        AuthStep::Deny
    }
}

/// The step after the connector at `asked` left `output` behind.
pub fn authorize_next(asked: usize, connectors: usize, output: &Option<ProgramOutput>) -> (r:
    AuthStep)
    requires
        asked < connectors,
    ensures
        r == next_step(asked as nat, connectors as nat, output_allows(*output)),
{
    if connector_allows(output) {
        AuthStep::Allow
    } else if asked + 1 < connectors {
        AuthStep::Ask(asked + 1)
    } else {
        AuthStep::Deny
    }
}

/// Whether a caller is let in at the end, from a step on, when the connectors answer as
/// `allows` says.
pub open spec fn let_in(step: AuthStep, allows: Seq<bool>) -> bool
    decreases
            (match step {
                AuthStep::Ask(i) => if i < allows.len() {
                    allows.len() - i
                } else {
                    0
                },
                _ => 0,
            }),
{
    match step {
        AuthStep::Allow => true,
        AuthStep::Deny => false,
        AuthStep::Ask(i) => if i < allows.len() && allows.len() <= usize::MAX {
            let_in(next_step(i as nat, allows.len(), allows[i as int]), allows)
        } else {
            false
        },
    }
}

proof fn lemma_let_in(place: nat, allows: Seq<bool>)
    requires
        place <= allows.len() <= usize::MAX,
    ensures
        let_in(ask_or_deny(place, allows.len()), allows) == exists|i: int|
            place <= i < allows.len() && #[trigger] allows[i],
    decreases allows.len() - place,
{
    reveal_with_fuel(let_in, 2);
    if place < allows.len() {
        if !allows[place as int] {
            lemma_let_in(place + 1, allows);
        }
    }
}

/// Law: a caller is let in exactly if it is trusted or a connector allows it.
pub proof fn law_let_in_iff_trusted_or_allowed(
    ip: Ip,
    insecure: Option<Seq<char>>,
    allows: Seq<bool>,
)
    requires
        allows.len() <= usize::MAX,
    ensures
        let_in(first_step(trusted(ip, insecure), allows.len()), allows) == (trusted(ip, insecure)
            || exists|i: int| 0 <= i < allows.len() && #[trigger] allows[i]),
{
    lemma_let_in(0, allows);
}

/// What a connector says of itself when it is asked for its status: a JSON value, where it
/// ran in time, succeeded, and wrote one.
pub fn connector_metadata(output: &Option<ProgramOutput>) -> (r: Option<Value>)
    ensures
        match r {
            Some(v) => output matches Some(o) && o.success && jsontext::parsed_json(o.stdout@)
                == Some(jsontext::value_view(v)),
            None => match *output {
                Some(o) => !o.success || jsontext::parsed_json(o.stdout@) is None,
                None => true,
            },
        },
{
    match output {
        Some(o) => {
            if o.success {
                parse_value(o.stdout.as_slice())
            } else {
                None
            }
        },
        None => None,
    }
}

/// What `String::from_utf8_lossy` makes of bytes: their text, with a replacement character
/// where they are no UTF-8.
pub uninterp spec fn lossy_text(bytes: Seq<u8>) -> Seq<char>;

/// `String::from_utf8_lossy`: the text of the bytes, which is the one that they encode where
/// they are valid UTF-8. Where and how often it puts replacement characters otherwise is left
/// under a name.
#[verifier::external_body]
fn decode_lossy(bytes: &[u8]) -> (r: String)
    ensures
        r@ == lossy_text(bytes@),
        utf8::valid_utf8(bytes@) ==> r@ == utf8::decode_utf8(bytes@),
{
    String::from_utf8_lossy(bytes).into_owned()
}

/// The lines that a connector wrote, each of which may be an event.
pub fn event_lines(stdout: &[u8]) -> (r: Vec<String>)
    ensures
        text::texts(r@) == text::lines(lossy_text(stdout@)),
        utf8::valid_utf8(stdout@) ==> text::texts(r@) == text::lines(utf8::decode_utf8(stdout@)),
{
    text_lines(decode_lossy(stdout).as_str())
}

} // verus!
