//! The name of this machine.

use crate::text;
use vstd::prelude::*;
use vstd::string::*;

verus! {

/// `hostname::get`, where it succeeds with a name that is text. The name is the machine's:
/// nothing is stated of it.
#[verifier::external_body]
fn host_name() -> (r: Option<String>) {
    match hostname::get() {
        Ok(name) => name.into_string().ok(),
        Err(_) => None,
    }
}

/// The name of a machine whose host name is `host`, if it has one that is not empty; else
/// the first of some configured names; else `machine`.
pub open spec fn chosen_name(
    host: Option<Seq<char>>,
    first: Option<Seq<char>>,
    second: Option<Seq<char>>,
) -> Seq<char> {
    if host is Some && host->0.len() > 0 {
        host->0
    } else if first is Some {
        first->0
    } else if second is Some {
        second->0
    } else {
        "machine"@
    }
}

/// The name of a machine, from its host name and two configured names.
pub fn choose_name(host: Option<String>, first: Option<String>, second: Option<String>) -> (r:
    String)
    ensures
        r@ == chosen_name(text::opt_text(host), text::opt_text(first), text::opt_text(second)),
{
    match host {
        Some(name) => {
            if !name.as_str().is_empty() {
                return name;
            }
        },
        None => {},
    }
    match first {
        Some(name) => name,
        None => match second {
            Some(name) => name,
            None => "machine".to_owned(),
        },
    }
}

/// The name of this machine: its host name, else one of two configured names.
pub fn machine_name(first: Option<String>, second: Option<String>) -> (r: String)
    ensures
        exists|host: Option<Seq<char>>|
            r@ == #[trigger] chosen_name(host, text::opt_text(first), text::opt_text(second)),
{
    choose_name(host_name(), first, second)
}

} // verus!
