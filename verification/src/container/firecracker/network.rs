//! TAP devices and NAT for Firecracker VMs: the commands that set them up.
use vstd::prelude::*;
use vstd::string::*;
use crate::numbers::u64_to_string;
#[allow(unused_imports)]
use crate::numbers::{decimal, lemma_decimal_apart};
use crate::split::{split_whitespace, trim};
#[allow(unused_imports)]
use crate::split::{trimmed, words};
use crate::text::{cat, cat3, cat4, contains, first_bytes, str_eq};
#[allow(unused_imports)]
use crate::text::{byte_cut, char_width, has_infix};

verus! {

/// Manages TAP devices and NAT for Firecracker networking.
pub struct FcNetworkManager;

/// Whether the first eight bytes of an id are whole characters.
pub open spec fn has_short_form(id: Seq<char>) -> bool {
    byte_cut(id, 8) is Some
}

/// The name of the TAP device of a VM: `tap-` and the first eight bytes of its id.
pub open spec fn tap_name_of(id: Seq<char>) -> Seq<char> {
    "tap-"@ + id.take(byte_cut(id, 8)->0)
}

/// An address in the network of a VM: `172.16.{index}.{last}`.
pub open spec fn vm_address(index: u32, last: Seq<char>) -> Seq<char> {
    "172.16."@ + decimal(index as nat) + last
}

/// The interface of the default route: the word after the first `dev`, or `eth0`.
pub open spec fn route_device(w: Seq<Seq<char>>) -> Seq<char>
    decreases w.len(),
{
    if w.len() == 0 {
        "eth0"@
    } else if w[0] == "dev"@ {
        if w.len() > 1 {
            w[1]
        } else {
            "eth0"@
        }
    } else {
        route_device(w.skip(1))
    }
}

/// The arguments of `iptables` that check for the masquerade rule, or add it.
pub open spec fn masquerade(add: bool, iface: Seq<char>) -> Seq<Seq<char>> {
    seq![
        "-t"@,
        "nat"@,
        if add {
            "-A"@
        } else {
            "-C"@
        },
        "POSTROUTING"@,
        "-o"@,
        iface,
        "-j"@,
        "MASQUERADE"@,
    ]
}

/// Turns fixed words into a command line.
fn words_of(v: Vec<&str>) -> (r: Vec<String>)
    ensures
        r.deep_view() == v.deep_view(),
{
    let ghost all = v.deep_view();
    let mut out: Vec<String> = Vec::new();
    let mut i: usize = 0;
    assert(out.deep_view() =~= all.take(0));
    while i < v.len()
        invariant
            i <= v@.len(),
            all == v.deep_view(),
            out.deep_view() == all.take(i as int),
        decreases v@.len() - i,
    {
        let ghost before = out.deep_view();
        out.push(v[i].to_owned());
        assert(out.deep_view() =~= before.push(all[i as int]));
        assert(all.take(i + 1) =~= before.push(all[i as int]));
        i = i + 1;
    }
    assert(all.take(i as int) =~= all);
    out
}

impl FcNetworkManager {
    /// Whether a TAP device can be named after an id.
    pub fn can_name(id: &str) -> (r: bool)
        ensures
            r == has_short_form(id@),
    {
        first_bytes(id, 8).is_some()
    }

    /// The name of the TAP device of a VM.
    pub fn tap_name(id: &str) -> (r: String)
        requires
            has_short_form(id@),
        ensures
            r@ == tap_name_of(id@),
    {
        match first_bytes(id, 8) {
            Some(short) => cat("tap-", short.as_str()),
            None => String::new(),
        }
    }

    /// The guest IP address for a given VM index.
    pub fn guest_ip(vm_index: u32) -> (r: String)
        ensures
            r@ == vm_address(vm_index, ".2"@),
    {
        cat3("172.16.", u64_to_string(vm_index as u64).as_str(), ".2")
    }

    /// The host-side gateway IP for a given VM index.
    pub fn host_ip(vm_index: u32) -> (r: String)
        ensures
            r@ == vm_address(vm_index, ".1"@),
    {
        cat3("172.16.", u64_to_string(vm_index as u64).as_str(), ".1")
    }

    /// The host-side address of a VM's network, with its prefix length.
    pub fn host_cidr(vm_index: u32) -> (r: String)
        ensures
            r@ == vm_address(vm_index, ".1/30"@),
    {
        cat3("172.16.", u64_to_string(vm_index as u64).as_str(), ".1/30")
    }

    /// The arguments of `ip` that create a TAP device.
    pub fn create_tap_args(tap: &str) -> (r: Vec<String>)
        ensures
            r.deep_view() == seq!["tuntap"@, "add"@, tap@, "mode"@, "tap"@],
    {
        let v: Vec<&str> = vec!["tuntap", "add", tap, "mode", "tap"];
        assert(v.deep_view() =~= seq!["tuntap"@, "add"@, tap@, "mode"@, "tap"@]);
        words_of(v)
    }

    /// The arguments of `ip` that assign the host's address.
    pub fn assign_ip_args(tap: &str, host_cidr: &str) -> (r: Vec<String>)
        ensures
            r.deep_view() == seq!["addr"@, "add"@, host_cidr@, "dev"@, tap@],
    {
        let v: Vec<&str> = vec!["addr", "add", host_cidr, "dev", tap];
        assert(v.deep_view() =~= seq!["addr"@, "add"@, host_cidr@, "dev"@, tap@]);
        words_of(v)
    }

    /// The arguments of `ip` that set the hardware address.
    pub fn set_mac_args(tap: &str, mac: &str) -> (r: Vec<String>)
        ensures
            r.deep_view() == seq!["link"@, "set"@, tap@, "address"@, mac@],
    {
        let v: Vec<&str> = vec!["link", "set", tap, "address", mac];
        assert(v.deep_view() =~= seq!["link"@, "set"@, tap@, "address"@, mac@]);
        words_of(v)
    }

    /// The arguments of `ip` that bring a device up.
    pub fn bring_up_args(tap: &str) -> (r: Vec<String>)
        ensures
            r.deep_view() == seq!["link"@, "set"@, tap@, "up"@],
    {
        let v: Vec<&str> = vec!["link", "set", tap, "up"];
        assert(v.deep_view() =~= seq!["link"@, "set"@, tap@, "up"@]);
        words_of(v)
    }

    /// The commands that set up the TAP device of a VM, the creation first.
    pub fn setup_tap_commands(id: &str, vm_index: u32) -> (r: Vec<Vec<String>>)
        requires
            has_short_form(id@),
        ensures
            r.deep_view() == seq![
                seq!["tuntap"@, "add"@, tap_name_of(id@), "mode"@, "tap"@],
                seq!["addr"@, "add"@, vm_address(vm_index, ".1/30"@), "dev"@, tap_name_of(id@)],
                seq!["link"@, "set"@, tap_name_of(id@), "up"@],
            ],
    {
        let tap: String = Self::tap_name(id);
        let cidr: String = Self::host_cidr(vm_index);
        let mut out: Vec<Vec<String>> = Vec::new();
        out.push(Self::create_tap_args(tap.as_str()));
        out.push(Self::assign_ip_args(tap.as_str(), cidr.as_str()));
        out.push(Self::bring_up_args(tap.as_str()));
        assert(out.deep_view() =~= seq![
            seq!["tuntap"@, "add"@, tap_name_of(id@), "mode"@, "tap"@],
            seq!["addr"@, "add"@, vm_address(vm_index, ".1/30"@), "dev"@, tap_name_of(id@)],
            seq!["link"@, "set"@, tap_name_of(id@), "up"@],
        ]);
        out
    }

    /// The commands that set up the TAP device of a VM in a VPC: no IPv4
    /// address, a well-known hardware address.
    pub fn setup_tap_vpc_commands(id: &str, mac: &str) -> (r: Vec<Vec<String>>)
        requires
            has_short_form(id@),
        ensures
            r.deep_view() == seq![
                seq!["tuntap"@, "add"@, tap_name_of(id@), "mode"@, "tap"@],
                seq!["link"@, "set"@, tap_name_of(id@), "address"@, mac@],
                seq!["link"@, "set"@, tap_name_of(id@), "up"@],
            ],
    {
        let tap: String = Self::tap_name(id);
        let mut out: Vec<Vec<String>> = Vec::new();
        out.push(Self::create_tap_args(tap.as_str()));
        out.push(Self::set_mac_args(tap.as_str(), mac));
        out.push(Self::bring_up_args(tap.as_str()));
        assert(out.deep_view() =~= seq![
            seq!["tuntap"@, "add"@, tap_name_of(id@), "mode"@, "tap"@],
            seq!["link"@, "set"@, tap_name_of(id@), "address"@, mac@],
            seq!["link"@, "set"@, tap_name_of(id@), "up"@],
        ]);
        out
    }

    /// Whether a command has done its work: it succeeded, or what it makes is
    /// there already.
    pub fn done_or_present(success: bool, stderr: &str) -> (r: bool)
        ensures
            r == (success || has_infix(stderr@, "File exists"@)),
    {
        success || contains(stderr, "File exists")
    }

    /// What is said where a TAP device could not be created.
    pub fn create_tap_failure(tap: &str, stderr: &str) -> (r: String)
        ensures
            r@ == "[fc-net] Failed to create TAP "@ + tap@ + ": "@ + trimmed(stderr@),
    {
        cat4("[fc-net] Failed to create TAP ", tap, ": ", trim(stderr).as_str())
    }

    /// The arguments of `ip` that add an address of the mesh to a TAP device.
    pub fn add_ipv6_args(tap_name: &str, ghost_ipv6: &str) -> (r: Vec<String>)
        ensures
            r.deep_view() == seq![
                "-6"@,
                "addr"@,
                "add"@,
                ghost_ipv6@ + "/128"@,
                "dev"@,
                tap_name@,
            ],
    {
        let cidr: String = cat(ghost_ipv6, "/128");
        let v: Vec<&str> = vec!["-6", "addr", "add", cidr.as_str(), "dev", tap_name];
        assert(v.deep_view() =~= seq![
            "-6"@,
            "addr"@,
            "add"@,
            ghost_ipv6@ + "/128"@,
            "dev"@,
            tap_name@,
        ]);
        words_of(v)
    }

    /// What is said where an address could not be added.
    pub fn add_ipv6_failure(tap_name: &str, ghost_ipv6: &str, stderr: &str) -> (r: String)
        ensures
            r@ == "[fc-net] Failed to add IPv6 "@ + ghost_ipv6@ + " to "@ + tap_name@ + ": "@
                + trimmed(stderr@),
    {
        let mut s: String = cat4("[fc-net] Failed to add IPv6 ", ghost_ipv6, " to ", tap_name);
        s.append(": ");
        s.append(trim(stderr).as_str());
        s
    }

    /// The arguments of `ip` that delete the TAP device of a VM.
    pub fn cleanup_tap_args(id: &str) -> (r: Vec<String>)
        requires
            has_short_form(id@),
        ensures
            r.deep_view() == seq!["link"@, "delete"@, tap_name_of(id@)],
    {
        let tap: String = Self::tap_name(id);
        let v: Vec<&str> = vec!["link", "delete", tap.as_str()];
        assert(v.deep_view() =~= seq!["link"@, "delete"@, tap_name_of(id@)]);
        words_of(v)
    }

    /// The interface of the default route, from the output of `ip route`.
    pub fn default_interface(stdout: &str) -> (r: String)
        ensures
            r@ == route_device(words(stdout@)),
    {
        let w: Vec<String> = split_whitespace(stdout);
        let ghost all = w.deep_view();
        let mut i: usize = 0;
        assert(all.skip(0) =~= all);
        while i < w.len()
            invariant
                i <= w@.len(),
                all == w.deep_view(),
                all == words(stdout@),
                route_device(all) == route_device(all.skip(i as int)),
            decreases w@.len() - i,
        {
            assert(all.skip(i as int)[0] == w@[i as int]@);
            if str_eq(w[i].as_str(), "dev") {
                if i + 1 < w.len() {
                    assert(all.skip(i as int)[1] == w@[i + 1]@);
                    return w[i + 1].clone();
                }
                return "eth0".to_owned();
            }
            assert(all.skip(i as int).skip(1) =~= all.skip(i + 1));
            i = i + 1;
        }
        "eth0".to_owned()
    }

    /// What follows a command of a setup: the setup fails if the device cannot be
    /// created, which is the first command, and goes on after anything else. A
    /// device that is there already will do.
    pub fn after_setup_command(index: usize, tap: &str, success: bool, stderr: &str) -> (r: Result<
        (),
        String,
    >)
        ensures
            r is Ok <==> index != 0 || success || has_infix(stderr@, "File exists"@),
            match r {
                Ok(_) => true,
                Err(e) => e@ == "[fc-net] Failed to create TAP "@ + tap@ + ": "@ + trimmed(stderr@),
            },
    {
        if index != 0 || Self::done_or_present(success, stderr) {
            Ok(())
        } else {
            Err(Self::create_tap_failure(tap, stderr))
        }
    }

    /// The arguments of `iptables` that check for the masquerade rule of the
    /// default route.
    pub fn nat_check(route: &str) -> (r: Vec<String>)
        ensures
            r.deep_view() == masquerade(false, route_device(words(route@))),
    {
        Self::masquerade_args(false, Self::default_interface(route).as_str())
    }

    /// The arguments of `iptables` that set up NAT, unless the check has found the
    /// rule.
    pub fn setup_nat(route: &str, check: Option<bool>) -> (r: Option<Vec<String>>)
        ensures
            r.deep_view() == if check == Some(true) {
                None
            } else {
                Some(masquerade(true, route_device(words(route@))))
            },
    {
        match check {
            Some(true) => None,
            _ => Some(Self::masquerade_args(true, Self::default_interface(route).as_str())),
        }
    }

    /// The arguments of `iptables` that check for the masquerade rule, or add it.
    pub fn masquerade_args(add: bool, iface: &str) -> (r: Vec<String>)
        ensures
            r.deep_view() == masquerade(add, iface@),
    {
        let op: &str = if add {
            "-A"
        } else {
            "-C"
        };
        let v: Vec<&str> = vec!["-t", "nat", op, "POSTROUTING", "-o", iface, "-j", "MASQUERADE"];
        assert(v.deep_view() =~= seq![
            "-t"@,
            "nat"@,
            op@,
            "POSTROUTING"@,
            "-o"@,
            iface@,
            "-j"@,
            "MASQUERADE"@,
        ]);
        words_of(v)
    }
}

/// VMs with different indices have different addresses, on the side of the host
/// and on that of the guest.
pub proof fn law_networks_are_apart(a: u32, b: u32, last: Seq<char>)
    requires
        vm_address(a, last) == vm_address(b, last),
    ensures
        a == b,
{
    let p = "172.16."@;
    let x = vm_address(a, last);
    let y = vm_address(b, last);
    let da = decimal(a as nat);
    let db = decimal(b as nat);
    assert(x.len() == p.len() + da.len() + last.len());
    assert(y.len() == p.len() + db.len() + last.len());
    assert(da =~= x.subrange(p.len() as int, (p.len() + da.len()) as int));
    assert(db =~= y.subrange(p.len() as int, (p.len() + db.len()) as int));
    lemma_decimal_apart(a as nat, b as nat);
}

/// A machine has the address 2 and its host the address 1 of the network with its
/// number, in a range of four addresses.
pub proof fn law_machine_addresses(index: u32, guest: String, host: String, range: String)
    requires
        call_ensures(FcNetworkManager::guest_ip, (index,), guest),
        call_ensures(FcNetworkManager::host_ip, (index,), host),
        call_ensures(FcNetworkManager::host_cidr, (index,), range),
    ensures
        guest@ == "172.16."@ + decimal(index as nat) + ".2"@,
        host@ == "172.16."@ + decimal(index as nat) + ".1"@,
        range@ == "172.16."@ + decimal(index as nat) + ".1/30"@,
        guest@ != host@,
{
    reveal_strlit(".1");
    reveal_strlit(".2");
    assert(".1"@.len() == 2 && ".2"@.len() == 2);
    assert(guest@.last() == '2' && host@.last() == '1');
}

proof fn lemma_short_cut(s: Seq<char>, n: int)
    requires
        0 <= n <= s.len(),
        forall|i: int| 0 <= i < s.len() ==> #[trigger] s[i] <= '\u{7f}',
    ensures
        byte_cut(s, n) == Some(n),
    decreases s.len(),
{
    if n > 0 {
        assert(s[0] <= '\u{7f}');
        assert(char_width(s[0]) == 1);
        let t = s.skip(1);
        assert forall|i: int| 0 <= i < t.len() implies #[trigger] t[i] <= '\u{7f}' by {
            assert(t[i] == s[i + 1]);
        }
        lemma_short_cut(t, n - 1);
    }
}

/// The interface of a machine is named after the first eight characters of its id,
/// and is created, given the host's address and brought up, in this order, and
/// deleted under the same name.
pub proof fn law_interface_follows_the_id(
    id: &str,
    vm_index: u32,
    name: String,
    setup: Vec<Vec<String>>,
    cleanup: Vec<String>,
)
    requires
        call_ensures(FcNetworkManager::tap_name, (id,), name),
        call_ensures(FcNetworkManager::setup_tap_commands, (id, vm_index), setup),
        call_ensures(FcNetworkManager::cleanup_tap_args, (id,), cleanup),
        id@.len() >= 8,
        forall|i: int| 0 <= i < id@.len() ==> #[trigger] id@[i] <= '\u{7f}',
    ensures
        name@ == "tap-"@ + id@.take(8),
        setup.deep_view() == seq![
            seq!["tuntap"@, "add"@, name@, "mode"@, "tap"@],
            seq![
                "addr"@,
                "add"@,
                "172.16."@ + decimal(vm_index as nat) + ".1/30"@,
                "dev"@,
                name@,
            ],
            seq!["link"@, "set"@, name@, "up"@],
        ],
        cleanup.deep_view() == seq!["link"@, "delete"@, name@],
{
    lemma_short_cut(id@, 8);
}

/// Traffic leaves by the device that the default route names, or by `eth0`.
pub proof fn law_route_names_the_device(w: Seq<Seq<char>>, i: int)
    requires
        0 <= i < w.len(),
        w[i] == "dev"@,
        forall|j: int| 0 <= j < i ==> #[trigger] w[j] != "dev"@,
    ensures
        i + 1 < w.len() ==> route_device(w) == w[i + 1],
        i + 1 == w.len() ==> route_device(w) == "eth0"@,
        route_device(Seq::empty()) == "eth0"@,
    decreases w.len(),
{
    if i > 0 {
        assert(w[0] != "dev"@);
        let t = w.skip(1);
        assert(t[i - 1] == w[i]);
        assert forall|j: int| 0 <= j < i - 1 implies #[trigger] t[j] != "dev"@ by {
            assert(t[j] == w[j + 1]);
        }
        law_route_names_the_device(t, i - 1);
    }
}

/// Address translation is added to the device of the default route exactly where
/// the check did not find it there, and both speak of the same rule.
pub proof fn law_translation_is_added_once(
    route: &str,
    check: Option<bool>,
    iface: &str,
    test: Vec<String>,
    r: Option<Vec<String>>,
)
    requires
        call_ensures(FcNetworkManager::nat_check, (route,), test),
        call_ensures(FcNetworkManager::setup_nat, (route, check), r),
        iface@ == route_device(words(route@)),
    ensures
        r is None <==> check == Some(true),
        test.deep_view() == seq![
            "-t"@,
            "nat"@,
            "-C"@,
            "POSTROUTING"@,
            "-o"@,
            iface@,
            "-j"@,
            "MASQUERADE"@,
        ],
        r matches Some(c) ==> c.deep_view() == seq![
            "-t"@,
            "nat"@,
            "-A"@,
            "POSTROUTING"@,
            "-o"@,
            iface@,
            "-j"@,
            "MASQUERADE"@,
        ],
{
}

/// Only the creation of the interface can fail the setup, and an interface that is
/// there already does not.
pub proof fn law_setup_fails_at_creation(
    index: usize,
    tap: &str,
    success: bool,
    stderr: &str,
    r: Result<(), String>,
    done: bool,
)
    requires
        call_ensures(FcNetworkManager::after_setup_command, (index, tap, success, stderr), r),
        call_ensures(FcNetworkManager::done_or_present, (success, stderr), done),
    ensures
        index > 0 ==> r is Ok,
        index == 0 ==> (r is Ok <==> done),
        success ==> done,
        !success ==> (done <==> has_infix(stderr@, "File exists"@)),
{
}

/// In a private network the interface of a machine is made and brought up as in the
/// plain one; in between it gets the gateway's hardware address and no other.
pub proof fn law_private_interface_is_set_up(
    id: &str,
    index: u32,
    mac: &str,
    tap: String,
    plain: Vec<Vec<String>>,
    r: Vec<Vec<String>>,
)
    requires
        call_ensures(FcNetworkManager::tap_name, (id,), tap),
        call_ensures(FcNetworkManager::setup_tap_commands, (id, index), plain),
        call_ensures(FcNetworkManager::setup_tap_vpc_commands, (id, mac), r),
    ensures
        r.len() == 3,
        plain.len() == 3,
        r.deep_view()[0] == plain.deep_view()[0],
        r.deep_view()[2] == plain.deep_view()[2],
        r.deep_view()[1] == seq!["link"@, "set"@, tap@, "address"@, mac@],
{
    assert(r.deep_view().len() == r.len());
    assert(plain.deep_view().len() == plain.len());
}

/// An address of the sixth version is added to an interface for itself alone.
pub proof fn law_single_address_is_added(tap: &str, address: &str, r: Vec<String>)
    requires
        call_ensures(FcNetworkManager::add_ipv6_args, (tap, address), r),
    ensures
        r.len() == 6,
        r[0]@ == "-6"@,
        r[2]@ == "add"@,
        r[3]@ == address@ + "/128"@,
        r[5]@ == tap@,
{
    let v = r.deep_view();
    assert(v.len() == r.len());
    assert(v[0] == r[0]@ && v[2] == r[2]@ && v[3] == r[3]@ && v[5] == r[5]@);
}

/// An id of ASCII characters can name an interface, by as much of it as there is of its
/// first eight characters; one whose eighth byte is not the end of a character cannot.
pub proof fn law_plain_ids_name_interfaces(id: &str, can: bool)
    requires
        call_ensures(FcNetworkManager::can_name, (id,), can),
    ensures
        (forall|i: int| 0 <= i < id@.len() ==> #[trigger] id@[i] <= '\u{7f}') ==> can,
        id@.len() == 8 && id@[7] > '\u{7f}' && (forall|i: int|
            0 <= i < 7 ==> #[trigger] id@[i] <= '\u{7f}') ==> !can,
{
    if forall|i: int| 0 <= i < id@.len() ==> #[trigger] id@[i] <= '\u{7f}' {
        lemma_ascii_cut(id@, 8);
    }
    if id@.len() == 8 && id@[7] > '\u{7f}' && (forall|i: int|
        0 <= i < 7 ==> #[trigger] id@[i] <= '\u{7f}') {
        lemma_wide_cut(id@, 7);
    }
}

proof fn lemma_ascii_cut(s: Seq<char>, n: int)
    requires
        n >= 0,
        forall|i: int| 0 <= i < s.len() ==> #[trigger] s[i] <= '\u{7f}',
    ensures
        byte_cut(s, n) is Some,
    decreases n,
{
    if s.len() > 0 && n > 0 {
        assert forall|i: int| 0 <= i < s.skip(1).len() implies #[trigger] s.skip(1)[i] <= '\u{7f}' by {
            assert(s.skip(1)[i] == s[i + 1]);
        }
        assert(s[0] <= '\u{7f}');
        lemma_ascii_cut(s.skip(1), n - 1);
    }
}

proof fn lemma_wide_cut(s: Seq<char>, n: int)
    requires
        0 <= n < s.len(),
        s[n] > '\u{7f}',
        forall|i: int| 0 <= i < n ==> #[trigger] s[i] <= '\u{7f}',
    ensures
        byte_cut(s, n + 1) is None,
    decreases n,
{
    if n > 0 {
        let t = s.skip(1);
        assert(t[n - 1] == s[n]);
        assert forall|i: int| 0 <= i < n - 1 implies #[trigger] t[i] <= '\u{7f}' by {
            assert(t[i] == s[i + 1]);
        }
        assert(s[0] <= '\u{7f}');
        lemma_wide_cut(t, n - 1);
    }
}

} // verus!
