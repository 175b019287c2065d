//! Where the agent keeps its files, which variables of the environment it
//! reads, and how it reports its end to the operating system.

use vstd::prelude::*;
use vstd::string::*;

verus! {

/// The variable that names the data directory.
pub const DATA_DIR_VAR: &'static str = "KRUSTLET_DATA_DIR";

/// The variable that gives the node's address.
pub const NODE_IP_VAR: &'static str = "KRUSTLET_NODE_IP";

/// The variable that gives the node's host name.
pub const HOSTNAME_VAR: &'static str = "KRUSTLET_HOSTNAME";

/// The variable that names the cluster configuration.
pub const KUBECONFIG_VAR: &'static str = "KUBECONFIG";

/// How the agent ended.
#[derive(Clone, Copy, Debug, PartialEq, Eq, Structural)]
pub enum Shutdown {
    /// It was asked to stop.
    Normal,
    /// Its configuration cannot be used.
    FatalConfig,
    /// The cluster's API stayed out of reach until the backoff was used up.
    ApiUnreachable,
}

/// The exit code of an ending.
pub open spec fn exit_code_of(shutdown: Shutdown) -> u8 {
    match shutdown {
        Shutdown::Normal => 0,
        Shutdown::FatalConfig => 1,
        Shutdown::ApiUnreachable => 2,
    }
}

/// The exit code with which the agent reports how it ended.
pub fn exit_code(shutdown: Shutdown) -> (code: u8)
    ensures
        code == exit_code_of(shutdown),
{
    match shutdown {
        Shutdown::Normal => 0,
        Shutdown::FatalConfig => 1,
        Shutdown::ApiUnreachable => 2,
    }
}

/// The directory of cached modules below the data directory.
pub open spec fn modules_path(data_dir: Seq<char>) -> Seq<char> {
    data_dir + "/modules"@
}

/// The directory of plugin sockets below the data directory.
pub open spec fn plugins_path(data_dir: Seq<char>) -> Seq<char> {
    data_dir + "/plugins"@
}

/// The directory of one volume of one pod below the data directory.
pub open spec fn volume_path(
    data_dir: Seq<char>,
    namespace: Seq<char>,
    pod: Seq<char>,
    volume: Seq<char>,
) -> Seq<char> {
    data_dir + "/volumes/"@ + namespace + "-"@ + pod + "/"@ + volume
}

/// The log file of one container of one pod below the data directory.
pub open spec fn log_path(data_dir: Seq<char>, pod: Seq<char>, container: Seq<char>) -> Seq<
    char,
> {
    data_dir + "/logs/"@ + pod + "-"@ + container + ".log"@
}

/// The file that a key of a secret or a config map is projected to in a
/// volume.
pub open spec fn projected_path(volume_dir: Seq<char>, key: Seq<char>) -> Seq<char> {
    volume_dir + "/"@ + key
}

/// The directory of cached modules.
pub fn modules_dir(data_dir: &str) -> (path: String)
    ensures
        path@ == modules_path(data_dir@),
{
    String::from_str(data_dir).concat("/modules")
}

/// The directory of plugin sockets.
pub fn plugins_dir(data_dir: &str) -> (path: String)
    ensures
        path@ == plugins_path(data_dir@),
{
    String::from_str(data_dir).concat("/plugins")
}

/// The directory into which a volume of a pod is materialised.
pub fn volume_dir(data_dir: &str, namespace: &str, pod: &str, volume: &str) -> (path: String)
    ensures
        path@ == volume_path(data_dir@, namespace@, pod@, volume@),
{
    String::from_str(data_dir).concat("/volumes/").concat(namespace).concat("-").concat(pod).concat(
        "/",
    ).concat(volume)
}

/// The file that holds the log of a container of a pod.
pub fn log_file(data_dir: &str, pod: &str, container: &str) -> (path: String)
    ensures
        path@ == log_path(data_dir@, pod@, container@),
{
    String::from_str(data_dir).concat("/logs/").concat(pod).concat("-").concat(container).concat(
        ".log",
    )
}

/// The files that the items of a secret or a config map are projected to
/// in a volume, each with its content, in the order of the items.
pub open spec fn projection(volume_dir: Seq<char>, items: Seq<(String, Vec<u8>)>) -> Seq<
    (Seq<char>, Seq<u8>),
> {
    items.map_values(|item: (String, Vec<u8>)| (projected_path(volume_dir, item.0@), item.1@))
}

/// Files as plain values: each path with its content.
pub open spec fn file_views(files: Seq<(String, Vec<u8>)>) -> Seq<(Seq<char>, Seq<u8>)> {
    files.map_values(|f: (String, Vec<u8>)| (f.0@, f.1@))
}

/// Projects the items of a secret or a config map into a volume: one file
/// per key, named by the key, holding the key's value.
pub fn project(volume_dir: &str, items: Vec<(String, Vec<u8>)>) -> (files: Vec<(String, Vec<u8>)>)
    ensures
        file_views(files@) == projection(volume_dir@, items@),
{
    let mut files: Vec<(String, Vec<u8>)> = Vec::new();
    let mut i: usize = 0;
    while i < items.len()
        invariant
            i <= items@.len(),
            files@.len() == i,
            forall|j: int|
                0 <= j < i ==> (#[trigger] files@[j]).0@ == projected_path(
                    volume_dir@,
                    items@[j].0@,
                ) && files@[j].1@ == items@[j].1@,
        decreases items@.len() - i,
    {
        let path = String::from_str(volume_dir).concat("/").concat(items[i].0.as_str());
        files.push((path, items[i].1.clone()));
        i = i + 1;
    }
    assert(file_views(files@) =~= projection(volume_dir@, items@));
    files
}

} // verus!
