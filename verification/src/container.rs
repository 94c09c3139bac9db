//! Sandbox container bookkeeping.
//!
//! The manager tracks the metadata of every live container — id, service,
//! internal port, allocated host port, creation time — and the lifecycle
//! counters. Its well-formedness carries the resource invariants: ids are
//! unique and no two live containers share a host port. The operating-system
//! side of the lifecycle (spawning the runtime, binding ports, connecting)
//! happens in the surrounding runtime, which registers and removes handles
//! here.

use vstd::prelude::*;
use vstd::string::StringExecFns;

use crate::errors::ContainerError;

verus! {

/// Supported container runtime backends.
#[derive(Debug, Clone, Copy, PartialEq, Eq, Structural)]
pub enum Runtime {
    /// systemd-nspawn based containers.
    SystemdNspawn,
}

/// Aggregate counters describing current and historical container state.
#[derive(Debug, Clone, Copy, PartialEq, Eq, Structural)]
pub struct ContainerStats {
    /// Number of containers currently tracked as active.
    pub active_count: usize,
    /// Total number of containers successfully created since manager init.
    pub total_created: u64,
    /// Number of operations that failed.
    pub failed_count: u64,
}

impl Default for ContainerStats {
    /// Counters of a fresh manager: nothing created, nothing failed.
    fn default() -> (r: Self)
        ensures
            r.active_count == 0,
            r.total_created == 0,
            r.failed_count == 0,
    {
        ContainerStats { active_count: 0, total_created: 0, failed_count: 0 }
    }
}

/// Mathematical view of a container handle.
#[verifier::ext_equal]
pub ghost struct HandleView {
    pub id: Seq<char>,
    pub service_name: Seq<char>,
    pub port: u16,
    pub host_port: u16,
    pub created_at_ms: i64,
}

/// Metadata of one live container. The runtime process, the activity-log
/// file and the preconnected socket are operating-system resources owned by
/// the surrounding runtime; a handle carries what the bookkeeping and the
/// contracts need.
#[derive(Debug, Clone)]
pub struct ContainerHandle {
    /// Unique identifier (`miel-<service>-<uuid>`).
    pub id: String,
    /// Logical service name the container runs (e.g. "ssh").
    pub service_name: String,
    /// Fixed internal container port where the service listens.
    pub port: u16,
    /// Ephemeral host port mapped to the container's internal port.
    pub host_port: u16,
    /// Creation timestamp, milliseconds since the epoch.
    pub created_at_ms: i64,
}

impl View for ContainerHandle {
    type V = HandleView;

    open spec fn view(&self) -> HandleView {
        HandleView {
            id: self.id@,
            service_name: self.service_name@,
            port: self.port,
            host_port: self.host_port,
            created_at_ms: self.created_at_ms,
        }
    }
}

impl ContainerHandle {
    /// A field-for-field copy of the handle's metadata.
    pub fn duplicate(&self) -> (r: ContainerHandle)
        ensures
            r@ == self@,
    {
        let r = ContainerHandle {
            id: self.id.clone(),
            service_name: self.service_name.clone(),
            port: self.port,
            host_port: self.host_port,
            created_at_ms: self.created_at_ms,
        };
        proof {
            assert(r@ =~= self@);
        }
        r
    }
}

/// Whether the registry holds a container with the id.
pub open spec fn registry_has_id(reg: Seq<HandleView>, id: Seq<char>) -> bool {
    exists|i: int| 0 <= i < reg.len() && reg[i].id == id
}

/// Whether the registry holds a container bound to the host port.
pub open spec fn registry_has_host_port(reg: Seq<HandleView>, port: u16) -> bool {
    exists|i: int| 0 <= i < reg.len() && reg[i].host_port == port
}

/// Whether two strings hold the same characters.
pub fn str_eq(a: &str, b: &str) -> (r: bool)
    ensures
        r == (a@ == b@),
{
    let sa = a.to_owned();
    let sb = b.to_owned();
    sa == sb
}

/// Orchestrates container lifecycle bookkeeping for honeypot services.
pub struct ContainerManager {
    /// The selected runtime backend.
    pub runtime: Runtime,
    /// Metadata of every live container.
    pub active_containers: Vec<ContainerHandle>,
    /// Lifecycle counters.
    pub stats: ContainerStats,
}

impl ContainerManager {
    /// The registry of live containers.
    pub open spec fn registry(&self) -> Seq<HandleView> {
        self.active_containers@.map_values(|h: ContainerHandle| h@)
    }

    /// Well-formedness: ids unique, host ports unique, and the active
    /// counter equal to the registry size.
    pub open spec fn wf(&self) -> bool {
        &&& forall|i: int, j: int|
            0 <= i < j < self.registry().len() ==> #[trigger] self.registry()[i].id != (
            #[trigger] self.registry()[j].id)
        &&& forall|i: int, j: int|
            0 <= i < j < self.registry().len() ==> #[trigger] self.registry()[i].host_port != (
            #[trigger] self.registry()[j].host_port)
        &&& self.stats.active_count == self.registry().len()
    }

    /// No two live containers share a host port.
    pub proof fn lemma_host_ports_distinct(&self, i: int, j: int)
        requires
            self.wf(),
            0 <= i < self.registry().len(),
            0 <= j < self.registry().len(),
            i != j,
        ensures
            self.registry()[i].host_port != self.registry()[j].host_port,
    {
    }

    /// Creates a manager, provided the runtime is available and the process
    /// holds the privileges the runtime needs.
    pub fn new(runtime_available: bool, running_as_root: bool) -> (r: Result<
        ContainerManager,
        ContainerError,
    >)
        ensures
            match r {
                Ok(m) => {
                    &&& runtime_available
                    &&& running_as_root
                    &&& m.wf()
                    &&& m.runtime == Runtime::SystemdNspawn
                    &&& m.registry() == Seq::<HandleView>::empty()
                    &&& m.stats == (ContainerStats {
                        active_count: 0,
                        total_created: 0,
                        failed_count: 0,
                    })
                },
                Err(e) => {
                    ||| !runtime_available && e matches ContainerError::RuntimeNotAvailable
                    ||| runtime_available && !running_as_root && e matches
                        ContainerError::InsufficientPrivileges
                },
            },
    {
        if !runtime_available {
            return Err(ContainerError::RuntimeNotAvailable);
        }
        if !running_as_root {
            return Err(ContainerError::InsufficientPrivileges);
        }
        let m = ContainerManager {
            runtime: Runtime::SystemdNspawn,
            active_containers: Vec::new(),
            stats: ContainerStats { active_count: 0, total_created: 0, failed_count: 0 },
        };
        proof {
            assert(m.registry() =~= Seq::<HandleView>::empty());
        }
        Ok(m)
    }

    /// Whether a live container with the id exists.
    pub fn has_container(&self, id: &str) -> (r: bool)
        ensures
            r == registry_has_id(self.registry(), id@),
    {
        let n = self.active_containers.len();
        let mut i: usize = 0;
        while i < n
            invariant
                n == self.active_containers@.len(),
                i <= n,
                forall|j: int| 0 <= j < i ==> #[trigger] self.registry()[j].id != id@,
            decreases n - i,
        {
            if str_eq(self.active_containers[i].id.as_str(), id) {
                proof {
                    assert(self.registry()[i as int].id == id@);
                }
                return true;
            }
            i = i + 1;
        }
        false
    }

    /// Whether a live container already occupies the host port.
    pub fn has_host_port(&self, port: u16) -> (r: bool)
        ensures
            r == registry_has_host_port(self.registry(), port),
    {
        let n = self.active_containers.len();
        let mut i: usize = 0;
        while i < n
            invariant
                n == self.active_containers@.len(),
                i <= n,
                forall|j: int| 0 <= j < i ==> #[trigger] self.registry()[j].host_port != port,
            decreases n - i,
        {
            if self.active_containers[i].host_port == port {
                proof {
                    assert(self.registry()[i as int].host_port == port);
                }
                return true;
            }
            i = i + 1;
        }
        false
    }

    /// Registers a freshly created container. Fails, changing nothing, when
    /// the id or the host port is already taken or the creation counter is
    /// exhausted.
    pub fn register_container(&mut self, handle: ContainerHandle) -> (r: Result<
        (),
        ContainerError,
    >)
        requires
            old(self).wf(),
        ensures
            final(self).wf(),
            final(self).runtime == old(self).runtime,
            match r {
                Ok(()) => {
                    &&& !registry_has_id(old(self).registry(), handle@.id)
                    &&& !registry_has_host_port(old(self).registry(), handle@.host_port)
                    &&& final(self).registry() == old(self).registry().push(handle@)
                    &&& final(self).stats.total_created == old(self).stats.total_created + 1
                    &&& final(self).stats.failed_count == old(self).stats.failed_count
                },
                Err(_) => {
                    &&& (registry_has_id(old(self).registry(), handle@.id)
                        || registry_has_host_port(old(self).registry(), handle@.host_port)
                        || old(self).stats.total_created == u64::MAX)
                    &&& final(self).registry() == old(self).registry()
                    &&& final(self).stats == old(self).stats
                },
            },
    {
        if self.has_container(handle.id.as_str()) {
            return Err(ContainerError::CreationFailed(String::from_str(
                "container id already registered",
            )));
        }
        if self.has_host_port(handle.host_port) {
            return Err(ContainerError::CreationFailed(String::from_str(
                "host port already in use",
            )));
        }
        if self.stats.total_created == u64::MAX {
            return Err(ContainerError::CreationFailed(String::from_str(
                "creation counter exhausted",
            )));
        }
        let ghost pre = old(self).registry();
        self.active_containers.push(handle);
        self.stats.total_created = self.stats.total_created + 1;
        self.stats.active_count = self.active_containers.len();
        proof {
            assert(self.registry() =~= pre.push(handle@));
            assert forall|a: int, b: int|
                0 <= a < b < self.registry().len() implies #[trigger] self.registry()[a].id != (
            #[trigger] self.registry()[b].id) && self.registry()[a].host_port
                != self.registry()[b].host_port by {
                if b == pre.len() {
                    assert(self.registry()[a] == pre[a]);
                    assert(!registry_has_id(pre, handle@.id));
                    assert(!registry_has_host_port(pre, handle@.host_port));
                }
            }
        }
        Ok(())
    }

    /// Removes the container with the handle's id from the registry and
    /// updates the counters. Idempotent: removing an unknown id succeeds
    /// and changes nothing but the recomputed counter.
    pub fn cleanup_container(&mut self, handle: ContainerHandle) -> (r: Result<
        (),
        ContainerError,
    >)
        requires
            old(self).wf(),
        ensures
            final(self).wf(),
            final(self).runtime == old(self).runtime,
            r is Ok,
            final(self).registry() == old(self).registry().filter(
                |h: HandleView| h.id != handle@.id,
            ),
            final(self).stats.total_created == old(self).stats.total_created,
            final(self).stats.failed_count == old(self).stats.failed_count,
    {
        let ghost pre = self.registry();
        let ghost keep = |h: HandleView| h.id != handle@.id;
        let mut kept: Vec<ContainerHandle> = Vec::new();
        let mut i: usize = 0;
        proof {
            reveal(Seq::filter);
            assert(pre.subrange(0, 0) =~= Seq::<HandleView>::empty());
        }
        while i < self.active_containers.len()
            invariant
                i <= self.active_containers@.len(),
                pre == self.registry(),
                kept@.map_values(|h: ContainerHandle| h@) == pre.subrange(0, i as int).filter(
                    |h: HandleView| h.id != handle@.id,
                ),
            decreases self.active_containers@.len() - i,
        {
            let ghost prefix = pre.subrange(0, i as int);
            let differs = !str_eq(
                self.active_containers[i].id.as_str(),
                handle.id.as_str(),
            );
            if differs {
                kept.push(self.active_containers[i].duplicate());
            }
            i = i + 1;
            proof {
                reveal(Seq::filter);
                let prefix2 = pre.subrange(0, i as int);
                assert(prefix2.drop_last() =~= prefix);
                assert(prefix2.last() == pre[i - 1]);
                if differs {
                    assert(kept@.map_values(|h: ContainerHandle| h@) =~= prefix.filter(
                        |h: HandleView| h.id != handle@.id,
                    ).push(pre[i - 1]));
                }
            }
        }
        proof {
            assert(pre.subrange(0, self.active_containers@.len() as int) =~= pre);
        }
        self.stats.active_count = kept.len();
        self.active_containers = kept;
        proof {
            crate::seq_util::lemma_filter_distinct_on(pre, keep, |h: HandleView| h.id);
            crate::seq_util::lemma_filter_distinct_on(pre, keep, |h: HandleView| h.host_port);
            Seq::lemma_filter_len(pre, keep);
        }
        Ok(())
    }

    /// Removes every container from the registry; the counters record that
    /// nothing stayed active.
    pub fn cleanup_all_containers(&mut self) -> (r: Result<(), ContainerError>)
        requires
            old(self).wf(),
        ensures
            final(self).wf(),
            final(self).runtime == old(self).runtime,
            r is Ok,
            final(self).registry() == Seq::<HandleView>::empty(),
            final(self).stats.active_count == 0,
            final(self).stats.total_created == old(self).stats.total_created,
            final(self).stats.failed_count == old(self).stats.failed_count,
    {
        self.active_containers.clear();
        self.stats.active_count = 0;
        proof {
            assert(self.registry() =~= Seq::<HandleView>::empty());
        }
        Ok(())
    }

    /// Returns the live container with the id, if any.
    pub fn get_container(&self, container_id: &str) -> (r: Option<&ContainerHandle>)
        ensures
            match r {
                Some(h) => registry_has_id(self.registry(), container_id@) && h@.id
                    == container_id@ && self.registry().contains(h@),
                None => !registry_has_id(self.registry(), container_id@),
            },
    {
        let n = self.active_containers.len();
        let mut i: usize = 0;
        while i < n
            invariant
                n == self.active_containers@.len(),
                i <= n,
                forall|j: int| 0 <= j < i ==> #[trigger] self.registry()[j].id != container_id@,
            decreases n - i,
        {
            if str_eq(self.active_containers[i].id.as_str(), container_id) {
                let h = &self.active_containers[i];
                proof {
                    assert(self.registry()[i as int] == h@);
                    assert(self.registry()[i as int].id == container_id@);
                }
                return Some(h);
            }
            i = i + 1;
        }
        None
    }

    /// Lists the identifiers of all live containers, in registry order.
    pub fn list_active_containers(&self) -> (r: Vec<String>)
        ensures
            r@.map_values(|s: String| s@) == self.registry().map_values(|h: HandleView| h.id),
    {
        let mut out: Vec<String> = Vec::new();
        let n = self.active_containers.len();
        let mut i: usize = 0;
        proof {
            assert(out@.map_values(|s: String| s@) =~= self.registry().map_values(
                |h: HandleView| h.id,
            ).subrange(0, 0));
        }
        while i < n
            invariant
                n == self.active_containers@.len(),
                i <= n,
                out@.map_values(|s: String| s@) == self.registry().map_values(
                    |h: HandleView| h.id,
                ).subrange(0, i as int),
            decreases n - i,
        {
            let ghost out_pre = out@;
            let id_copy = self.active_containers[i].id.clone();
            out.push(id_copy);
            i = i + 1;
            proof {
                let ids = self.registry().map_values(|h: HandleView| h.id);
                assert(out@ == out_pre.push(id_copy));
                assert(out@.map_values(|s: String| s@) =~= out_pre.map_values(
                    |s: String| s@,
                ).push(id_copy@));
                assert(ids[i - 1] == self.registry()[i - 1].id);
                assert(self.registry()[i - 1] == self.active_containers@[i - 1]@);
                assert(id_copy@ == self.active_containers@[i - 1].id@);
                assert(out@.map_values(|s: String| s@) =~= ids.subrange(0, i as int));
            }
        }
        proof {
            assert(self.registry().map_values(|h: HandleView| h.id).subrange(0, n as int)
                =~= self.registry().map_values(|h: HandleView| h.id));
        }
        out
    }

    /// Returns a snapshot of the counters; the active count is recomputed
    /// from the registry.
    pub fn get_container_stats(&self) -> (r: ContainerStats)
        ensures
            r.active_count == self.registry().len(),
            r.total_created == self.stats.total_created,
            r.failed_count == self.stats.failed_count,
    {
        ContainerStats {
            active_count: self.active_containers.len(),
            total_created: self.stats.total_created,
            failed_count: self.stats.failed_count,
        }
    }
}

/// A file the rootfs setup writes: its path below the container root, and
/// its content.
pub struct PlannedFile {
    /// Path relative to the container root.
    pub path: String,
    /// Content to write.
    pub content: String,
}

impl View for PlannedFile {
    type V = (Seq<char>, Seq<char>);

    open spec fn view(&self) -> (Seq<char>, Seq<char>) {
        (self.path@, self.content@)
    }
}

/// The directories every container rootfs holds.
pub open spec fn rootfs_dirs_spec() -> Seq<Seq<char>> {
    seq![
        "bin"@,
        "usr/bin"@,
        "usr/local"@,
        "usr/local/bin"@,
        "usr/local/etc"@,
        "sbin"@,
        "usr/sbin"@,
        "usr/libexec"@,
        "usr/libexec/openssh"@,
        "etc"@,
        "etc/ssh"@,
        "var"@,
        "var/run"@,
        "var/run/sshd"@,
        "tmp"@,
        "proc"@,
        "sys"@,
        "www"@,
        "root"@,
        "home"@,
        "home/miel"@,
        "usr/share"@,
        "usr/share/empty.sshd"@,
    ]
}

/// Lists the directory skeleton of a container rootfs.
pub fn rootfs_dir_list() -> (r: Vec<String>)
    ensures
        r.deep_view() == rootfs_dirs_spec(),
{
    let mut r: Vec<String> = Vec::new();
    r.push(String::from_str("bin"));
    r.push(String::from_str("usr/bin"));
    r.push(String::from_str("usr/local"));
    r.push(String::from_str("usr/local/bin"));
    r.push(String::from_str("usr/local/etc"));
    r.push(String::from_str("sbin"));
    r.push(String::from_str("usr/sbin"));
    r.push(String::from_str("usr/libexec"));
    r.push(String::from_str("usr/libexec/openssh"));
    r.push(String::from_str("etc"));
    r.push(String::from_str("etc/ssh"));
    r.push(String::from_str("var"));
    r.push(String::from_str("var/run"));
    r.push(String::from_str("var/run/sshd"));
    r.push(String::from_str("tmp"));
    r.push(String::from_str("proc"));
    r.push(String::from_str("sys"));
    r.push(String::from_str("www"));
    r.push(String::from_str("root"));
    r.push(String::from_str("home"));
    r.push(String::from_str("home/miel"));
    r.push(String::from_str("usr/share"));
    r.push(String::from_str("usr/share/empty.sshd"));
    proof {
        assert(r.deep_view() =~= rootfs_dirs_spec());
    }
    r
}

/// The static system files of a container rootfs, as `(path, content)`.
pub open spec fn rootfs_files_spec() -> Seq<(Seq<char>, Seq<char>)> {
    seq![
        (
            "etc/passwd"@,
            "root:x:0:0:root:/root:/bin/sh\nsshd:x:74:74:sshd privilege separation user:/var/run/sshd:/bin/false\nmiel:x:1000:1000:miel User:/home/miel:/bin/sh\n"@,
        ),
        ("etc/group"@, "root:x:0:\nsshd:x:74:\nmiel:x:1000:\n"@),
        (
            "etc/shadow"@,
            "root:*:19000:0:99999:7:::\nsshd:*:19000:0:99999:7:::\nmiel:SECRET-REDACTED:19000:0:99999:7:::\n"@,
        ),
        (
            "www/index.html"@,
            "<html><body><h1>Miel demo</h1><p>It works.</p></body></html>\n"@,
        ),
    ]
}

/// Lists the static system files a container rootfs is seeded with.
pub fn rootfs_file_plan() -> (r: Vec<PlannedFile>)
    ensures
        r@.map_values(|f: PlannedFile| f@) == rootfs_files_spec(),
{
    let mut r: Vec<PlannedFile> = Vec::new();
    r.push(
        PlannedFile {
            path: String::from_str("etc/passwd"),
            content: String::from_str(
                "root:x:0:0:root:/root:/bin/sh\nsshd:x:74:74:sshd privilege separation user:/var/run/sshd:/bin/false\nmiel:x:1000:1000:miel User:/home/miel:/bin/sh\n",
            ),
        },
    );
    r.push(
        PlannedFile {
            path: String::from_str("etc/group"),
            content: String::from_str("root:x:0:\nsshd:x:74:\nmiel:x:1000:\n"),
        },
    );
    r.push(
        PlannedFile {
            path: String::from_str("etc/shadow"),
            content: String::from_str(
                "root:*:19000:0:99999:7:::\nsshd:*:19000:0:99999:7:::\nmiel:SECRET-REDACTED:19000:0:99999:7:::\n",
            ),
        },
    );
    r.push(
        PlannedFile {
            path: String::from_str("www/index.html"),
            content: String::from_str(
                "<html><body><h1>Miel demo</h1><p>It works.</p></body></html>\n",
            ),
        },
    );
    proof {
        assert(r@.map_values(|f: PlannedFile| f@) =~= rootfs_files_spec());
    }
    r
}

/// The dummy service script of a container that serves no known protocol.
pub fn fallback_service_script(service_name: &str, port: u16) -> (r: String)
    ensures
        r@ == "#!/bin/sh\necho 'Starting "@ + service_name@ + " service on port "@
            + crate::fmt_util::dec_digits(port as int) + "'\nwhile true; do\n    echo 'Service "@
            + service_name@ + " is running'\n    sleep 30\ndone\n"@,
{
    let mut s = String::from_str("#!/bin/sh\necho 'Starting ");
    s.append(service_name);
    s.append(" service on port ");
    let d = crate::fmt_util::u64_to_string(port as u64);
    s.append(d.as_str());
    s.append("'\nwhile true; do\n    echo 'Service ");
    s.append(service_name);
    s.append(" is running'\n    sleep 30\ndone\n");
    s
}

/// The first line of a fresh activity log.
pub fn activity_log_header_line(container_id: &str, timestamp: &str) -> (r: String)
    ensures
        r@ == "=== Container "@ + container_id@ + " Activity Log Started at "@ + timestamp@
            + " ===\n"@,
{
    let mut s = String::from_str("=== Container ");
    s.append(container_id);
    s.append(" Activity Log Started at ");
    s.append(timestamp);
    s.append(" ===\n");
    s
}

/// Progressive backoff before the next connection attempt to a starting
/// container: half a second plus a fifth per retry, capped at three seconds.
pub open spec fn backoff_spec(retries: u64) -> int {
    if 500 + retries * 200 <= 3000 {
        500 + retries * 200
    } else {
        3000
    }
}

/// Milliseconds to wait before connection attempt number `retries`.
pub fn backoff_wait_ms(retries: u64) -> (r: u64)
    ensures
        r == backoff_spec(retries),
{
    if retries >= 13 {
        3000
    } else {
        500 + retries * 200
    }
}

/// Directory under which a container's ephemeral rootfs is materialized.
pub fn container_dir_path(container_id: &str) -> (r: String)
    ensures
        r@ == "/tmp/miel-containers/"@ + container_id@,
{
    String::from_str("/tmp/miel-containers/").concat(container_id)
}

/// Path of a container's unified activity log.
pub fn activity_log_path(container_id: &str) -> (r: String)
    ensures
        r@ == "/tmp/miel-logs/container-"@ + container_id@ + "-activity.log"@,
{
    String::from_str("/tmp/miel-logs/container-").concat(container_id).concat("-activity.log")
}

/// Path of a container's PTY capture node.
pub fn pty_path(container_id: &str) -> (r: String)
    ensures
        r@ == "/tmp/miel-pty-"@ + container_id@,
{
    String::from_str("/tmp/miel-pty-").concat(container_id)
}

/// Identifier of a fresh container: `miel-<service>-<uuid>`.
pub fn container_id_for(service_name: &str, uuid_str: &str) -> (r: String)
    ensures
        r@ == "miel-"@ + service_name@ + "-"@ + uuid_str@,
{
    String::from_str("miel-").concat(service_name).concat("-").concat(uuid_str)
}

/// Generates the identifier for a new container of the service: the
/// `miel-` prefix, the service name, and a fresh 36-character unique tag.
pub fn fresh_container_id(service_name: &str) -> (r: String)
    ensures
        r@.len() == service_name@.len() + 42,
        r@.subrange(0, 5) == "miel-"@,
        r@.subrange(5, 5 + service_name@.len() as int) == service_name@,
    {
    let tag = crate::ids::new_uuid_string();
    let r = container_id_for(service_name, tag.as_str());
    proof {
        reveal_strlit("miel-");
        reveal_strlit("-");
        assert(r@.subrange(0, 5) =~= "miel-"@);
        assert(r@.subrange(5, 5 + service_name@.len() as int) =~= service_name@);
    }
    r
}

} // verus!
