//! The monitor page: which disks and network interfaces it lists and in what
//! order, the transfer rates between two samples, and the Docker summary.

use vstd::prelude::*;
use crate::text::{chars_of, str_equals};
use crate::order::{strict_total, is_arrangement, arranged_by, arrange, text_less, text_is_less,
    lemma_text_less_irreflexive, lemma_text_less_transitive, lemma_text_less_total};

verus! {

/// Whether `t` occurs in `s`.
pub open spec fn has_part(s: Seq<char>, t: Seq<char>) -> bool {
    exists|i: int| 0 <= i && i + t.len() <= s.len() && #[trigger] s.subrange(i, i + t.len()) == t
}

/// Whether `t` occurs in `s`.
pub fn contains_text(s: &str, t: &str) -> (r: bool)
    ensures
        r == has_part(s@, t@),
{
    let a = chars_of(s);
    let b = chars_of(t);
    if b.len() > a.len() {
        proof {
            assert forall|i: int| 0 <= i && i + b@.len() <= a@.len() implies #[trigger] a@.subrange(
                i,
                i + b@.len(),
            ) != b@ by {}
        }
        return false;
    }
    let mut i: usize = 0;
    while i <= a.len() - b.len()
        invariant
            a@ == s@,
            b@ == t@,
            b.len() <= a.len(),
            i <= a.len() - b.len() + 1,
            forall|k: int| 0 <= k < i ==> #[trigger] a@.subrange(k, k + b@.len()) != b@,
        decreases a.len() - i,
    {
        let mut j: usize = 0;
        while j < b.len() && a[i + j] == b[j]
            invariant
                j <= b.len(),
                i + b.len() <= a.len(),
                forall|k: int| 0 <= k < j ==> a@[i + k] == b@[k],
            decreases b.len() - j,
        {
            j = j + 1;
        }
        if j == b.len() {
            proof {
                assert(a@.subrange(i as int, i + b@.len()) =~= b@);
                assert(s@.subrange(i as int, i + t@.len()) == t@);
            }
            return true;
        }
        proof {
            assert(a@.subrange(i as int, i + b@.len())[j as int] != b@[j as int]);
        }
        i = i + 1;
    }
    proof {
        assert forall|k: int| 0 <= k && k + b@.len() <= a@.len() implies #[trigger] a@.subrange(
            k,
            k + b@.len(),
        ) != b@ by {
            assert(k < i);
        }
    }
    false
}

/// The disks listed, by position: each device once (its first entry), and
/// no overlay device.
pub open spec fn disks_upto(names: Seq<Seq<char>>, n: int) -> Seq<usize>
    decreases n,
{
    if n <= 0 {
        Seq::empty()
    } else {
        let p = disks_upto(names, n - 1);
        if (exists|k: int| 0 <= k < n - 1 && #[trigger] names[k] == names[n - 1]) || has_part(
            names[n - 1],
            "overlay"@,
        ) {
            p
        } else {
            p.push((n - 1) as usize)
        }
    }
}

/// The disks the monitor lists (their positions among the disks reported).
pub fn listed_disks(names: &Vec<String>) -> (r: Vec<usize>)
    ensures
        r@ == disks_upto(names@.map_values(|s: String| s@), names.len() as int),
{
    let ghost ns = names@.map_values(|s: String| s@);
    let mut out: Vec<usize> = Vec::new();
    let mut i: usize = 0;
    while i < names.len()
        invariant
            i <= names.len(),
            ns == names@.map_values(|s: String| s@),
            out@ == disks_upto(ns, i as int),
        decreases names.len() - i,
    {
        let mut seen = false;
        let mut k: usize = 0;
        while k < i
            invariant
                k <= i < names.len(),
                ns == names@.map_values(|s: String| s@),
                seen == exists|t: int| 0 <= t < k && #[trigger] ns[t] == ns[i as int],
            decreases i - k,
        {
            if str_equals(names[k].as_str(), names[i].as_str()) {
                proof {
                    assert(ns[k as int] == ns[i as int]);
                }
                seen = true;
            }
            k = k + 1;
        }
        let overlay = contains_text(names[i].as_str(), "overlay");
        proof {
            assert(ns[i as int] == names@[i as int]@);
        }
        if !seen && !overlay {
            out.push(i);
        }
        i = i + 1;
    }
    out
}

/// Names in lexicographic order; equal names keep their order.
pub open spec fn name_ahead(names: Seq<Seq<char>>, i: int, j: int) -> bool {
    text_less(names[i], names[j]) || (names[i] == names[j] && i < j)
}

proof fn lemma_name_order(names: Seq<Seq<char>>)
    ensures
        strict_total(|i: int, j: int| name_ahead(names, i, j), names.len() as int),
{
    let ahead = |i: int, j: int| name_ahead(names, i, j);
    assert forall|i: int| 0 <= i < names.len() implies !#[trigger] ahead(i, i) by {
        lemma_text_less_irreflexive(names[i]);
    }
    assert forall|i: int, j: int, k: int|
        0 <= i < names.len() && 0 <= j < names.len() && 0 <= k < names.len() && #[trigger] ahead(i, j)
            && #[trigger] ahead(j, k) implies ahead(i, k) by {
        if text_less(names[i], names[j]) && text_less(names[j], names[k]) {
            lemma_text_less_transitive(names[i], names[j], names[k]);
        }
    }
    assert forall|i: int, j: int|
        0 <= i < names.len() && 0 <= j < names.len() && i != j implies #[trigger] ahead(i, j)
            || #[trigger] ahead(j, i) by {
        lemma_text_less_total(names[i], names[j]);
    }
}

/// The order in which names are listed: lexicographic, equal names in their
/// given order.
pub fn order_by_name(names: &Vec<String>) -> (r: Vec<usize>)
    ensures
        is_arrangement(r@, names.len() as int),
        arranged_by(r@, |i: int, j: int| name_ahead(names@.map_values(|s: String| s@), i, j)),
{
    let n = names.len();
    let ghost ns = names@.map_values(|s: String| s@);
    let ghost ahead = |i: int, j: int| name_ahead(names@.map_values(|s: String| s@), i, j);
    let before = |a: usize, b: usize| -> (x: bool)
        requires
            a < n && b < n,
        ensures
            x == name_ahead(names@.map_values(|s: String| s@), a as int, b as int),
        {
            let sa = names[a].as_str();
            let sb = names[b].as_str();
            text_is_less(sa, sb) || (str_equals(sa, sb) && a < b)
        };
    proof {
        lemma_name_order(ns);
    }
    arrange(n, before, Ghost(ahead))
}

/// A network interface as the monitor lists it.
#[derive(Clone, Debug)]
pub struct NetworkInterfaceInfo {
    pub name: String,
    pub ip_addresses: Vec<String>,
    pub received: u64,
    pub transmitted: u64,
    pub recv_rate: u64,
    pub transmit_rate: u64,
}

/// An interface's byte counters at two samples.
#[derive(Clone, Copy, Debug)]
pub struct TrafficSample {
    pub first_received: u64,
    pub first_transmitted: u64,
    pub received: u64,
    pub transmitted: u64,
}

impl NetworkInterfaceInfo {
    /// The line of an interface: its totals at the second sample and what it
    /// moved since the first.
    pub fn from_samples(name: String, ip_addresses: Vec<String>, s: TrafficSample) -> (r: Self)
        requires
            s.first_received <= s.received,
            s.first_transmitted <= s.transmitted,
        ensures
            r.name == name,
            r.ip_addresses == ip_addresses,
            r.received == s.received,
            r.transmitted == s.transmitted,
            r.recv_rate == s.received - s.first_received,
            r.transmit_rate == s.transmitted - s.first_transmitted,
    {
        NetworkInterfaceInfo {
            name,
            ip_addresses,
            received: s.received,
            transmitted: s.transmitted,
            recv_rate: s.received - s.first_received,
            transmit_rate: s.transmitted - s.first_transmitted,
        }
    }
}

/// An image as the monitor lists it.
#[derive(Clone, Debug)]
pub struct DockerImageInfo {
    pub id: String,
    pub repo_tags: Vec<String>,
    pub size: u64,
}

/// The Docker summary of the monitor.
#[derive(Clone, Debug)]
pub struct DockerInformation {
    pub image_count: usize,
    pub images: Vec<DockerImageInfo>,
    pub running_container_count: usize,
    pub total_disk: u64,
}

impl DockerInformation {
    /// The summary of the listed images, the running containers and the
    /// layers' size (0 when unknown; the size is cast to `u64` as it is, so a
    /// negative size wraps).
    pub fn summarize(images: Vec<DockerImageInfo>, running_containers: usize, layers_size: Option<
        i64,
    >) -> (r: Self)
        ensures
            r.image_count == images.len(),
            r.images == images,
            r.running_container_count == running_containers,
            r.total_disk == match layers_size {
                Some(x) => x as u64,
                None => 0u64,
            },
    {
        let total: u64 = match layers_size {
            Some(x) => x as u64,
            None => 0,
        };
        DockerInformation {
            image_count: images.len(),
            images,
            running_container_count: running_containers,
            total_disk: total,
        }
    }
}

} // verus!
