use vstd::prelude::*;
use crate::text::{
    chars_of, eq_str, find, find_char, first_word_bounds, lemma_find_bounds, lemma_trim_start_shape,
    lemma_word_shape, lower, lower_chars, slice_chars, starts_with, starts_with_str, string_of,
    trim, trim_bounds, trim_start, word,
};
use crate::url_parts::opt_chars;

verus! {

/// Network state as reported to pages.
#[derive(Clone, Debug)]
pub struct NetworkInfo {
    pub connected: bool,
    pub ssid: Option<String>,
    pub airplane_mode: bool,
    pub ip_address: Option<String>,
}

/// What was read for one network interface: the contents of its
/// `operstate` file, and the output of `ip -4 -o addr show dev IFACE` when
/// that command succeeded (`None` where nothing could be read).
#[derive(Clone, Debug)]
pub struct InterfaceReading {
    pub operstate: Option<String>,
    pub ip_output: Option<String>,
}

/// A reading trimmed of white space, or `None` when nothing non-blank was
/// read.
pub open spec fn trimmed_value(raw: Option<Seq<char>>) -> Option<Seq<char>> {
    match raw {
        Some(x) => if trim(x).len() > 0 {
            Some(trim(x))
        } else {
            None
        },
        None => None,
    }
}

/// Whether a property value means "on": `1`, or `true` in any ASCII case.
pub open spec fn is_true_word(v: Seq<char>) -> bool {
    v == "1"@ || lower(v) == "true"@
}

/// Airplane mode from the `wirelessEnable` property: on when wireless is not
/// enabled.
pub open spec fn airplane_mode_of(wireless: Option<Seq<char>>) -> Option<bool> {
    match trimmed_value(wireless) {
        Some(v) => Some(!is_true_word(v)),
        None => None,
    }
}

/// The network name from the `essid` property; `0` and blank mean none.
pub open spec fn ssid_of(essid: Option<Seq<char>>) -> Option<Seq<char>> {
    match trimmed_value(essid) {
        Some(v) => if trim(v).len() > 0 && trim(v) != "0"@ {
            Some(trim(v))
        } else {
            None
        },
        None => None,
    }
}

/// The address of one `ADDR/PREFIX` token, when it is a dotted address
/// outside the loopback range.
pub open spec fn ipv4_in_token(w: Seq<char>) -> Option<Seq<char>> {
    match find(w, '/') {
        Some(i) => {
            let a = w.take(i);
            if find(a, '.') is Some && !starts_with(a, "127."@) {
                Some(a)
            } else {
                None
            }
        },
        None => None,
    }
}

/// The first address that `ipv4_in_token` accepts among the white-space
/// separated tokens of `s`.
pub open spec fn first_ipv4(s: Seq<char>) -> Option<Seq<char>>
    decreases s.len(),
{
    let t = trim_start(s);
    if t.len() == 0 {
        None
    } else {
        let w = word(t);
        if ipv4_in_token(w) is Some {
            ipv4_in_token(w)
        } else {
            proof {
                lemma_trim_start_shape(s);
                lemma_word_shape(t);
            }
            first_ipv4(t.skip(w.len() as int))
        }
    }
}

/// The address of one interface: only an interface whose state is `up`, and
/// never a loopback address.
pub open spec fn interface_ipv4(r: InterfaceReading) -> Option<Seq<char>> {
    if trimmed_value(opt_chars(r.operstate)) != Some("up"@) {
        None
    } else {
        match opt_chars(r.ip_output) {
            Some(o) => match first_ipv4(o) {
                Some(ip) => if !starts_with(ip, "127."@) {
                    Some(ip)
                } else {
                    None
                },
                None => None,
            },
            None => None,
        }
    }
}

/// The address of the first interface, in the order given, that has one.
pub open spec fn ip_address_of(ifaces: Seq<InterfaceReading>) -> Option<Seq<char>>
    decreases ifaces.len(),
{
    if ifaces.len() == 0 {
        None
    } else {
        match interface_ipv4(ifaces[0]) {
            Some(ip) => Some(ip),
            None => ip_address_of(ifaces.drop_first()),
        }
    }
}

/// The network report for the given readings: connected, network name,
/// airplane mode and address, or the error when nothing at all was read.
pub open spec fn network_outcome(
    wireless: Option<Seq<char>>,
    essid: Option<Seq<char>>,
    ifaces: Seq<InterfaceReading>,
) -> Result<(bool, Option<Seq<char>>, bool, Option<Seq<char>>), Seq<char>> {
    let airplane = airplane_mode_of(wireless);
    let ssid = ssid_of(essid);
    let ip = ip_address_of(ifaces);
    if airplane is None && ssid is None && ip is None {
        Err("network telemetry unavailable"@)
    } else {
        let off = airplane == Some(true);
        let connected = ip is Some || (ssid is Some && ssid->0.len() > 0);
        Ok((connected && !off, ssid, off, ip))
    }
}

/// A network report as values.
pub open spec fn network_view(n: NetworkInfo) -> (bool, Option<Seq<char>>, bool, Option<Seq<char>>) {
    (n.connected, opt_chars(n.ssid), n.airplane_mode, opt_chars(n.ip_address))
}

/// Whether a battery status file's contents mean the battery is charging.
pub open spec fn status_means_charging(status: Seq<char>) -> bool {
    let l = lower(status);
    l == "charging"@ || l == "full"@ || l == "1"@ || l == "true"@
}

/// The first status reading that holds something, as the sysfs candidates
/// are tried in order.
pub open spec fn first_status(statuses: Seq<Option<String>>) -> Option<Seq<char>>
    decreases statuses.len(),
{
    if statuses.len() == 0 {
        None
    } else {
        match trimmed_value(opt_chars(statuses[0])) {
            Some(v) => Some(v),
            None => first_status(statuses.drop_first()),
        }
    }
}

fn trimmed_value_of(raw: &Option<String>) -> (r: Option<Vec<char>>)
    ensures
        match trimmed_value(opt_chars(*raw)) {
            Some(v) => r matches Some(x) && x@ == v,
            None => r is None,
        },
{
    match raw {
        Some(x) => {
            let cs = chars_of(x.as_str());
            let (a, b) = trim_bounds(&cs);
            if a < b {
                Some(slice_chars(&cs, a, b))
            } else {
                None
            }
        },
        None => None,
    }
}

fn is_true_word_exec(v: &[char]) -> (r: bool)
    ensures
        r == is_true_word(v@),
{
    if eq_str(v, "1") {
        return true;
    }
    let l = lower_chars(v);
    eq_str(&l, "true")
}

fn opt_string(v: Option<Vec<char>>) -> (r: Option<String>)
    ensures
        match v {
            Some(x) => r matches Some(s) && s@ == x@,
            None => r is None,
        },
{
    match v {
        Some(x) => Some(string_of(&x)),
        None => None,
    }
}

fn ipv4_in_token_exec(cs: &[char], a: usize, b: usize) -> (r: Option<Vec<char>>)
    requires
        a <= b <= cs@.len(),
    ensures
        match ipv4_in_token(cs@.subrange(a as int, b as int)) {
            Some(v) => r matches Some(x) && x@ == v,
            None => r is None,
        },
{
    let ghost w = cs@.subrange(a as int, b as int);
    proof {
        lemma_find_bounds(w, '/');
    }
    match find_char(cs, a, b, '/') {
        Some(k) => {
            let addr = slice_chars(cs, a, k);
            assert(addr@ =~= w.take(k - a));
            let has_dot = find_char(cs, a, k, '.').is_some();
            assert(cs@.subrange(a as int, k as int) == addr@);
            if has_dot && !starts_with_str(&addr, "127.") {
                Some(addr)
            } else {
                None
            }
        },
        None => None,
    }
}

fn ipv4_in_output(cs: &[char]) -> (r: Option<Vec<char>>)
    ensures
        match first_ipv4(cs@) {
            Some(v) => r matches Some(x) && x@ == v,
            None => r is None,
        },
{
    let len = cs.len();
    let mut pos: usize = 0;
    assert(cs@.subrange(0, len as int) =~= cs@);
    while pos < len
        invariant
            len == cs@.len(),
            pos <= len,
            first_ipv4(cs@) == first_ipv4(cs@.subrange(pos as int, len as int)),
        decreases len - pos,
    {
        let ghost s = cs@.subrange(pos as int, len as int);
        match first_word_bounds(cs, pos, len) {
            None => {
                assert(first_ipv4(s) is None);
                return None;
            },
            Some((a, b)) => {
                let ghost t = trim_start(s);
                proof {
                    lemma_trim_start_shape(s);
                    lemma_word_shape(t);
                }
                match ipv4_in_token_exec(cs, a, b) {
                    Some(addr) => {
                        return Some(addr);
                    },
                    None => {
                        assert(t.skip(word(t).len() as int) =~= cs@.subrange(b as int, len as int));
                        pos = b;
                    },
                }
            },
        }
    }
    assert(cs@.subrange(len as int, len as int).len() == 0);
    assert(trim_start(cs@.subrange(len as int, len as int)).len() == 0) by {
        lemma_trim_start_shape(cs@.subrange(len as int, len as int));
    }
    None
}

fn interface_ipv4_exec(r: &InterfaceReading) -> (out: Option<Vec<char>>)
    ensures
        match interface_ipv4(*r) {
            Some(v) => out matches Some(x) && x@ == v,
            None => out is None,
        },
{
    let up = match trimmed_value_of(&r.operstate) {
        Some(state) => eq_str(&state, "up"),
        None => false,
    };
    if !up {
        return None;
    }
    match &r.ip_output {
        Some(o) => {
            let cs = chars_of(o.as_str());
            match ipv4_in_output(&cs) {
                Some(ip) => if !starts_with_str(&ip, "127.") {
                    Some(ip)
                } else {
                    None
                },
                None => None,
            }
        },
        None => None,
    }
}

fn read_ip_address(ifaces: &Vec<InterfaceReading>) -> (r: Option<Vec<char>>)
    ensures
        match ip_address_of(ifaces@) {
            Some(v) => r matches Some(x) && x@ == v,
            None => r is None,
        },
{
    let mut i: usize = 0;
    assert(ifaces@.skip(0) =~= ifaces@);
    while i < ifaces.len()
        invariant
            i <= ifaces@.len(),
            ip_address_of(ifaces@) == ip_address_of(ifaces@.skip(i as int)),
        decreases ifaces.len() - i,
    {
        assert(ifaces@.skip(i as int)[0] == ifaces@[i as int]);
        assert(ifaces@.skip(i as int).drop_first() =~= ifaces@.skip(i + 1));
        match interface_ipv4_exec(&ifaces[i]) {
            Some(ip) => {
                return Some(ip);
            },
            None => {},
        }
        i = i + 1;
    }
    assert(ifaces@.skip(i as int).len() == 0);
    None
}

fn read_airplane_mode(wireless_enable: &Option<String>) -> (r: Option<bool>)
    ensures
        r == airplane_mode_of(opt_chars(*wireless_enable)),
{
    match trimmed_value_of(wireless_enable) {
        Some(v) => Some(!is_true_word_exec(&v)),
        None => None,
    }
}

fn read_ssid(essid: &Option<String>) -> (r: Option<Vec<char>>)
    ensures
        match ssid_of(opt_chars(*essid)) {
            Some(v) => r matches Some(x) && x@ == v,
            None => r is None,
        },
{
    match trimmed_value_of(essid) {
        Some(v) => {
            let (a, b) = trim_bounds(&v);
            let t = slice_chars(&v, a, b);
            if t.len() > 0 && !eq_str(&t, "0") {
                Some(t)
            } else {
                None
            }
        },
        None => None,
    }
}

/// The network report from what was read: the `wirelessEnable` and `essid`
/// properties (as printed by `lipc-get-prop`, `None` when it failed) and the
/// interfaces in the order they are tried (`wlan0`, then `eth0`). An error
/// when none of airplane mode, network name or address could be had.
pub fn read_network(
    wireless_enable: Option<String>,
    essid: Option<String>,
    interfaces: &Vec<InterfaceReading>,
) -> (r: Result<NetworkInfo, String>)
    ensures
        match network_outcome(opt_chars(wireless_enable), opt_chars(essid), interfaces@) {
            Ok(v) => r matches Ok(info) && network_view(info) == v,
            Err(e) => r matches Err(x) && x@ == e,
        },
{
    let airplane = read_airplane_mode(&wireless_enable);
    let ssid = read_ssid(&essid);
    let ip = read_ip_address(interfaces);
    if airplane.is_none() && ssid.is_none() && ip.is_none() {
        return Err(string_of(&chars_of("network telemetry unavailable")));
    }
    let connected = ip.is_some() || match &ssid {
        Some(v) => v.len() > 0,
        None => false,
    };
    let off = match airplane {
        Some(a) => a,
        None => false,
    };
    Ok(
        NetworkInfo {
            connected: connected && !off,
            ssid: opt_string(ssid),
            airplane_mode: off,
            ip_address: opt_string(ip),
        },
    )
}

/// Whether the battery is charging, from the status files tried in order
/// (`None` for one that could not be read): the first non-blank one decides,
/// and none means not charging.
pub fn sysfs_charging(statuses: &Vec<Option<String>>) -> (r: bool)
    ensures
        r == match first_status(statuses@) {
            Some(s) => status_means_charging(s),
            None => status_means_charging(Seq::empty()),
        },
{
    let mut i: usize = 0;
    assert(statuses@.skip(0) =~= statuses@);
    while i < statuses.len()
        invariant
            i <= statuses@.len(),
            first_status(statuses@) == first_status(statuses@.skip(i as int)),
        decreases statuses.len() - i,
    {
        assert(statuses@.skip(i as int)[0] == statuses@[i as int]);
        assert(statuses@.skip(i as int).drop_first() =~= statuses@.skip(i + 1));
        match trimmed_value_of(&statuses[i]) {
            Some(v) => {
                return charging_word(&v);
            },
            None => {},
        }
        i = i + 1;
    }
    assert(statuses@.skip(i as int).len() == 0);
    let empty: Vec<char> = Vec::new();
    assert(empty@ =~= Seq::<char>::empty());
    charging_word(&empty)
}

fn charging_word(status: &[char]) -> (r: bool)
    ensures
        r == status_means_charging(status@),
{
    let l = lower_chars(status);
    eq_str(&l, "charging") || eq_str(&l, "full") || eq_str(&l, "1") || eq_str(&l, "true")
}

/// Whether the `isCharging` property (as printed by `lipc-get-prop`, `None`
/// when it failed) says the battery is charging.
pub fn lipc_charging(value: Option<String>) -> (r: bool)
    ensures
        r == match trimmed_value(opt_chars(value)) {
            Some(v) => is_true_word(v),
            None => false,
        },
{
    match trimmed_value_of(&value) {
        Some(v) => is_true_word_exec(&v),
        None => false,
    }
}

} // verus!

verus! {

/// A device in airplane mode is never reported connected, and the report
/// is an error exactly when none of airplane mode, network name or address
/// could be read.
pub proof fn lemma_network_report(
    wireless: Option<Seq<char>>,
    essid: Option<Seq<char>>,
    ifaces: Seq<InterfaceReading>,
)
    ensures
        network_outcome(wireless, essid, ifaces) matches Ok(v) ==> (v.2 ==> !v.0),
        network_outcome(wireless, essid, ifaces) is Err <==> (airplane_mode_of(wireless) is None
            && ssid_of(essid) is None && ip_address_of(ifaces) is None),
        network_outcome(wireless, essid, ifaces) matches Ok(v) ==> v.1 == ssid_of(essid) && v.3
            == ip_address_of(ifaces),
{
}

/// A loopback address is never reported for an interface.
pub proof fn lemma_no_loopback_address(r: InterfaceReading)
    ensures
        interface_ipv4(r) matches Some(ip) ==> !starts_with(ip, "127."@),
{
}

} // verus!
