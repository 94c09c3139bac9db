//! Decoy-script generation for container obfuscation.
//!
//! A decorated container answers common inspection commands with plausible
//! output. The generators below produce the shell scripts that fake the
//! network-interface listings; installing them into the rootfs is the
//! surrounding runtime's work.

use vstd::prelude::*;
use vstd::string::StringExecFns;

use crate::fmt_util::{dec_digits, hex02, u128_to_hex02, u128_to_string};

verus! {

/// Script preamble and loopback block of the fake `ifconfig`.
pub open spec fn ifconfig_header() -> Seq<char> {
    "#!/bin/sh\n# Fake ifconfig command\n"@
        + "echo \"lo        Link encap:Local Loopback\"\necho \"          inet addr:127.0.0.1  Mask:255.0.0.0\"\necho \"          UP LOOPBACK RUNNING  MTU:65536  Metric:1\"\necho \"\"\n"@
}

/// The fake `ifconfig` block of interface number `i`.
pub open spec fn ifconfig_entry(name: Seq<char>, i: int) -> Seq<char> {
    "echo \""@ + name + "      Link encap:Ethernet  HWaddr 02:42:ac:11:00:"@ + hex02(i)
        + "\"\necho \"          inet addr:192.168.1."@ + dec_digits(i + 100)
        + "  Bcast:192.168.1.255  Mask:255.255.255.0\"\necho \"          UP BROADCAST RUNNING MULTICAST  MTU:1500  Metric:1\"\necho \"\"\n"@
}

/// The fake `ifconfig` blocks of the first `k` interfaces.
pub open spec fn ifconfig_entries(names: Seq<Seq<char>>, k: int) -> Seq<char>
    decreases k,
{
    if k <= 0 {
        Seq::empty()
    } else {
        ifconfig_entries(names, k - 1) + ifconfig_entry(names[k - 1], k - 1)
    }
}

/// The whole fake `ifconfig` script for the interface list.
pub open spec fn fake_ifconfig_script(names: Seq<Seq<char>>) -> Seq<char> {
    ifconfig_header() + ifconfig_entries(names, names.len() as int)
}

/// Script preamble and loopback block of the fake `ip`.
pub open spec fn ip_header() -> Seq<char> {
    "#!/bin/sh\n# Fake ip command\n"@
        + "echo '1: lo: <LOOPBACK,UP,LOWER_UP> mtu 65536 qdisc noqueue state UNKNOWN'\n"@
        + "echo '    inet 127.0.0.1/8 scope host lo'\n"@
}

/// The fake `ip` block of interface number `i`.
pub open spec fn ip_entry(name: Seq<char>, i: int) -> Seq<char> {
    "echo '"@ + dec_digits(i + 2)
        + ": "@ + name
        + ": <BROADCAST,MULTICAST,UP,LOWER_UP> mtu 1500 qdisc pfifo_fast state UP'\n"@
        + "echo '    inet 192.168.1."@ + dec_digits(i + 100) + "/24 brd 192.168.1.255 scope global "@
        + name + "'\n"@
}

/// The fake `ip` blocks of the first `k` interfaces.
pub open spec fn ip_entries(names: Seq<Seq<char>>, k: int) -> Seq<char>
    decreases k,
{
    if k <= 0 {
        Seq::empty()
    } else {
        ip_entries(names, k - 1) + ip_entry(names[k - 1], k - 1)
    }
}

/// The whole fake `ip` script for the interface list.
pub open spec fn fake_ip_script(names: Seq<Seq<char>>) -> Seq<char> {
    ip_header() + ip_entries(names, names.len() as int)
}

/// Generates the decoy scripts installed into a container.
pub struct ObfuscationManager {}

impl ObfuscationManager {
    /// Generates the fake `ifconfig` script: the loopback interface, then
    /// one ethernet block per configured interface name.
    pub fn generate_fake_ifconfig_script(interfaces: &[String]) -> (r: String)
        ensures
            r@ == fake_ifconfig_script(interfaces.deep_view()),
    {
        let ghost names = interfaces.deep_view();
        let mut s = String::from_str("#!/bin/sh\n# Fake ifconfig command\n");
        s.append(
            "echo \"lo        Link encap:Local Loopback\"\necho \"          inet addr:127.0.0.1  Mask:255.0.0.0\"\necho \"          UP LOOPBACK RUNNING  MTU:65536  Metric:1\"\necho \"\"\n",
        );
        let mut i: usize = 0;
        proof {
            assert(s@ =~= ifconfig_header() + ifconfig_entries(names, 0));
        }
        while i < interfaces.len()
            invariant
                i <= interfaces@.len(),
                names == interfaces.deep_view(),
                s@ == ifconfig_header() + ifconfig_entries(names, i as int),
            decreases interfaces@.len() - i,
        {
            s.append("echo \"");
            s.append(interfaces[i].as_str());
            s.append("      Link encap:Ethernet  HWaddr 02:42:ac:11:00:");
            let h = u128_to_hex02(i as u128);
            s.append(h.as_str());
            s.append("\"\necho \"          inet addr:192.168.1.");
            let d = u128_to_string(i as u128 + 100);
            s.append(d.as_str());
            s.append(
                "  Bcast:192.168.1.255  Mask:255.255.255.0\"\necho \"          UP BROADCAST RUNNING MULTICAST  MTU:1500  Metric:1\"\necho \"\"\n",
            );
            i = i + 1;
            proof {
                assert(names[i - 1] == interfaces@[i - 1]@);
                assert(s@ =~= ifconfig_header() + ifconfig_entries(names, i as int));
            }
        }
        s
    }

    /// Generates the fake `ip` script: the loopback lines, then one pair of
    /// lines per configured interface name.
    pub fn generate_fake_ip_script(interfaces: &[String]) -> (r: String)
        ensures
            r@ == fake_ip_script(interfaces.deep_view()),
    {
        let ghost names = interfaces.deep_view();
        let mut s = String::from_str("#!/bin/sh\n# Fake ip command\n");
        s.append("echo '1: lo: <LOOPBACK,UP,LOWER_UP> mtu 65536 qdisc noqueue state UNKNOWN'\n");
        s.append("echo '    inet 127.0.0.1/8 scope host lo'\n");
        let mut i: usize = 0;
        proof {
            assert(s@ =~= ip_header() + ip_entries(names, 0));
        }
        while i < interfaces.len()
            invariant
                i <= interfaces@.len(),
                names == interfaces.deep_view(),
                s@ == ip_header() + ip_entries(names, i as int),
            decreases interfaces@.len() - i,
        {
            s.append("echo '");
            let idx = u128_to_string(i as u128 + 2);
            s.append(idx.as_str());
            s.append(": ");
            s.append(interfaces[i].as_str());
            s.append(
                ": <BROADCAST,MULTICAST,UP,LOWER_UP> mtu 1500 qdisc pfifo_fast state UP'\n",
            );
            s.append("echo '    inet 192.168.1.");
            let d = u128_to_string(i as u128 + 100);
            s.append(d.as_str());
            s.append("/24 brd 192.168.1.255 scope global ");
            s.append(interfaces[i].as_str());
            s.append("'\n");
            i = i + 1;
            proof {
                assert(names[i - 1] == interfaces@[i - 1]@);
                assert(s@ =~= ip_header() + ip_entries(names, i as int));
            }
        }
        s
    }

    /// The `/etc/hosts` content presenting a fake hostname.
    pub fn fake_hosts_content(hostname: &str) -> (r: String)
        ensures
            r@ == "127.0.0.1\tlocalhost\n127.0.1.1\t"@ + hostname@
                + "\n::1\tlocalhost ip6-localhost ip6-loopback\n"@,
    {
        let mut s = String::from_str("127.0.0.1\tlocalhost\n127.0.1.1\t");
        s.append(hostname);
        s.append("\n::1\tlocalhost ip6-localhost ip6-loopback\n");
        s
    }
}

} // verus!
