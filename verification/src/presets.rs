//! The built-in port scanning presets: static configuration data.

use vstd::prelude::*;

use crate::types::{PortPreset, PortPresetV, PortRange};

verus! {

/// The full value of the built-in preset set, in order.
pub open spec fn spec_builtin_presets() -> Seq<PortPresetV> {
    seq![
        PortPresetV {
            id: "web"@,
            name: "Web Services"@,
            description: Some("Common web server ports (HTTP, HTTPS, proxies)"@),
            ranges: Seq::empty(),
            ports: seq![80u16, 443, 8080, 8443, 3000, 3001, 4000, 5000, 5173, 8000, 8888, 9000],
        },
        PortPresetV {
            id: "database"@,
            name: "Databases"@,
            description: Some("Common database server ports"@),
            ranges: Seq::empty(),
            ports: seq![3306u16, 5432, 27017, 6379, 9200, 5984, 8529, 7474, 1433, 1521],
        },
        PortPresetV {
            id: "dev"@,
            name: "Development"@,
            description: Some("Common development server ports"@),
            ranges: seq![
                PortRange { start: 3000, end: 3010 },
                PortRange { start: 4000, end: 4010 },
                PortRange { start: 5000, end: 5010 },
                PortRange { start: 8000, end: 8010 },
            ],
            ports: seq![1420u16, 5173, 5174, 24678],
        },
        PortPresetV {
            id: "system"@,
            name: "System Services"@,
            description: Some("Well-known system service ports (1-1024)"@),
            ranges: seq![PortRange { start: 1, end: 1024 }],
            ports: Seq::empty(),
        },
        PortPresetV {
            id: "high"@,
            name: "High Ports"@,
            description: Some("User-space ports (1024-65535)"@),
            ranges: seq![PortRange { start: 1024, end: 65535 }],
            ports: Seq::empty(),
        },
        PortPresetV {
            id: "messaging"@,
            name: "Messaging & Queues"@,
            description: Some("Message brokers and queue systems"@),
            ranges: Seq::empty(),
            ports: seq![5672u16, 15672, 9092, 2181, 4222, 6650, 61613, 61616],
        },
        PortPresetV {
            id: "container"@,
            name: "Containers & Orchestration"@,
            description: Some("Docker, Kubernetes, and container tools"@),
            ranges: Seq::empty(),
            ports: seq![2375u16, 2376, 6443, 10250, 10251, 10252, 2379, 2380, 8001],
        },
        PortPresetV {
            id: "network"@,
            name: "Network Services"@,
            description: Some("DNS, SSH, and network management"@),
            ranges: Seq::empty(),
            ports: seq![22u16, 53, 67, 68, 123, 161, 162, 389, 636, 1194],
        },
    ]
}

/// Builds the built-in preset set.
pub fn get_builtin_presets() -> (r: Vec<PortPreset>)
    ensures
        r.deep_view() == spec_builtin_presets(),
        r@.len() == 8,
{
    let mut out: Vec<PortPreset> = Vec::new();
    out.push(
        PortPreset {
            id: String::from_str("web"),
            name: String::from_str("Web Services"),
            description: Some(String::from_str("Common web server ports (HTTP, HTTPS, proxies)")),
            ranges: Vec::new(),
            ports: vec![80, 443, 8080, 8443, 3000, 3001, 4000, 5000, 5173, 8000, 8888, 9000],
        },
    );
    out.push(
        PortPreset {
            id: String::from_str("database"),
            name: String::from_str("Databases"),
            description: Some(String::from_str("Common database server ports")),
            ranges: Vec::new(),
            ports: vec![3306, 5432, 27017, 6379, 9200, 5984, 8529, 7474, 1433, 1521],
        },
    );
    let mut dev_ranges: Vec<PortRange> = Vec::new();
    dev_ranges.push(PortRange { start: 3000, end: 3010 });
    dev_ranges.push(PortRange { start: 4000, end: 4010 });
    dev_ranges.push(PortRange { start: 5000, end: 5010 });
    dev_ranges.push(PortRange { start: 8000, end: 8010 });
    out.push(
        PortPreset {
            id: String::from_str("dev"),
            name: String::from_str("Development"),
            description: Some(String::from_str("Common development server ports")),
            ranges: dev_ranges,
            ports: vec![1420, 5173, 5174, 24678],
        },
    );
    let mut system_ranges: Vec<PortRange> = Vec::new();
    system_ranges.push(PortRange { start: 1, end: 1024 });
    out.push(
        PortPreset {
            id: String::from_str("system"),
            name: String::from_str("System Services"),
            description: Some(String::from_str("Well-known system service ports (1-1024)")),
            ranges: system_ranges,
            ports: Vec::new(),
        },
    );
    let mut high_ranges: Vec<PortRange> = Vec::new();
    high_ranges.push(PortRange { start: 1024, end: 65535 });
    out.push(
        PortPreset {
            id: String::from_str("high"),
            name: String::from_str("High Ports"),
            description: Some(String::from_str("User-space ports (1024-65535)")),
            ranges: high_ranges,
            ports: Vec::new(),
        },
    );
    out.push(
        PortPreset {
            id: String::from_str("messaging"),
            name: String::from_str("Messaging & Queues"),
            description: Some(String::from_str("Message brokers and queue systems")),
            ranges: Vec::new(),
            ports: vec![5672, 15672, 9092, 2181, 4222, 6650, 61613, 61616],
        },
    );
    out.push(
        PortPreset {
            id: String::from_str("container"),
            name: String::from_str("Containers & Orchestration"),
            description: Some(String::from_str("Docker, Kubernetes, and container tools")),
            ranges: Vec::new(),
            ports: vec![2375, 2376, 6443, 10250, 10251, 10252, 2379, 2380, 8001],
        },
    );
    out.push(
        PortPreset {
            id: String::from_str("network"),
            name: String::from_str("Network Services"),
            description: Some(String::from_str("DNS, SSH, and network management")),
            ranges: Vec::new(),
            ports: vec![22, 53, 67, 68, 123, 161, 162, 389, 636, 1194],
        },
    );
    proof {
        assert(out.deep_view() =~~= spec_builtin_presets());
    }
    out
}

/// Law: the ids of the built-in presets are pairwise distinct.
pub proof fn lemma_preset_ids_unique()
    ensures
        forall|i: int, j: int|
            0 <= i < j < spec_builtin_presets().len() ==> (#[trigger] spec_builtin_presets()[i]).id
                != (#[trigger] spec_builtin_presets()[j]).id,
{
    reveal_strlit("web");
    reveal_strlit("database");
    reveal_strlit("dev");
    reveal_strlit("system");
    reveal_strlit("high");
    reveal_strlit("messaging");
    reveal_strlit("container");
    reveal_strlit("network");
    assert("web"@[0] != "dev"@[0]);
    assert("messaging"@[0] != "container"@[0]);
    assert("web"@.len() == 3 && "database"@.len() == 8 && "dev"@.len() == 3 && "system"@.len()
        == 6 && "high"@.len() == 4 && "messaging"@.len() == 9 && "container"@.len() == 9
        && "network"@.len() == 7);
}

} // verus!
