//! The snapshot that the kernel module publishes: memory figures and the
//! processes that belong to Docker containers.

use vstd::prelude::*;

verus! {

/// One containerised process as the kernel module reports it.
///
/// The memory share (`mem_usage`, a percentage) is carried as the bit pattern
/// of the floating-point value that the module printed: the library never
/// reads it, it only hands it on in the report.
pub struct Container {
    pub pid: i64,
    pub name: String,
    pub cpu_usage: i64,
    pub command_line: String,
    pub id_container: String,
    pub rss: i64,
    pub vsz: i64,
    pub mem_usage_bits: u64,
}

impl Container {
    /// A field-by-field copy of the container.
    pub fn duplicate(&self) -> (copy: Container)
        ensures
            copy == *self,
    {
        Container {
            pid: self.pid,
            name: self.name.clone(),
            cpu_usage: self.cpu_usage,
            command_line: self.command_line.clone(),
            id_container: self.id_container.clone(),
            rss: self.rss,
            vsz: self.vsz,
            mem_usage_bits: self.mem_usage_bits,
        }
    }
}

/// A copy of every container of the list, in the same order.
pub fn duplicate_all(list: &Vec<Container>) -> (copy: Vec<Container>)
    ensures
        copy@ == list@,
{
    let mut copy: Vec<Container> = Vec::new();
    let n = list.len();
    let mut i: usize = 0;
    while i < n
        invariant
            n == list.len(),
            i <= n,
            copy@ == list@.take(i as int),
        decreases n - i,
    {
        copy.push(list[i].duplicate());
        assert(list@.take(i as int + 1) =~= list@.take(i as int).push(list@[i as int]));
        i = i + 1;
    }
    assert(list@.take(n as int) =~= list@);
    copy
}

/// What the kernel module reports: memory figures in KiB and the
/// containerised processes.
pub struct SystemSnapshot {
    pub total_ram: i64,
    pub free_ram: i64,
    pub ram_in_use: i64,
    pub processes: Vec<Container>,
}

} // verus!
