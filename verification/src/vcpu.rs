//! Plain descriptions of virtual CPUs, virtual machines and physical cores:
//! what the interrupt engine needs to know of its surroundings.

use vstd::prelude::*;

verus! {

/// How many virtual machines a physical core can host a virtual CPU of.
pub const VCPU_ARRAY_SLOTS: usize = 64;

/// Identity of a virtual CPU: its index within its machine, the physical
/// core it runs on, and its machine.
#[derive(Clone, Copy, Debug, PartialEq, Eq, Structural)]
pub struct Vcpu {
    pub id: usize,
    pub phys_id: usize,
    pub vm_id: usize,
}

/// What the engine asks of a virtual machine with virtual CPUs of type `V`.
pub trait VmTrait<V> {
    /// The id of the machine.
    spec fn spec_if_id(&self) -> usize;

    /// The id of the machine.
    fn if_id(&self) -> (r: usize)
        ensures
            r == self.spec_if_id(),
    ;
}

/// What the engine asks of a virtual CPU.
pub trait VcpuTrait {
    /// The index of the virtual CPU within its machine.
    spec fn spec_if_id(&self) -> usize;

    /// The id of the machine.
    spec fn spec_if_vm_id(&self) -> usize;

    /// The physical core that the virtual CPU runs on.
    spec fn spec_if_phys_id(&self) -> usize;

    /// The index of the virtual CPU within its machine.
    fn if_id(&self) -> (r: usize)
        ensures
            r == self.spec_if_id(),
    ;

    /// The id of the machine.
    fn if_vm_id(&self) -> (r: usize)
        ensures
            r == self.spec_if_vm_id(),
    ;

    /// The physical core that the virtual CPU runs on.
    fn if_phys_id(&self) -> (r: usize)
        ensures
            r == self.spec_if_phys_id(),
    ;
}

/// What the engine asks of a physical core that runs virtual CPUs of type
/// `V`.
pub trait PcpuTrait<V> {
    /// The id of the core.
    spec fn spec_id(&self) -> usize;

    /// The id of the core.
    fn id(&self) -> (r: usize)
        ensures
            r == self.spec_id(),
    ;
}

impl VcpuTrait for Vcpu {
    open spec fn spec_if_id(&self) -> usize {
        self.id
    }

    open spec fn spec_if_vm_id(&self) -> usize {
        self.vm_id
    }

    open spec fn spec_if_phys_id(&self) -> usize {
        self.phys_id
    }

    fn if_id(&self) -> (r: usize) {
        self.id
    }

    fn if_vm_id(&self) -> (r: usize) {
        self.vm_id
    }

    fn if_phys_id(&self) -> (r: usize) {
        self.phys_id
    }
}

/// A virtual machine: its id and its virtual CPUs, indexed by their id.
pub struct Vm {
    pub id: usize,
    pub vcpu_list: Vec<Vcpu>,
}

impl Vm {
    /// A machine without virtual CPUs.
    pub fn new(id: usize) -> (vm: Vm)
        ensures
            vm.id == id,
            vm.vcpu_list@.len() == 0,
    {
        Vm { id, vcpu_list: Vec::new() }
    }

    /// The virtual CPU with index `id`, if the machine has one.
    pub fn vcpu(&self, id: usize) -> (r: Option<Vcpu>)
        ensures
            r == (if id < self.vcpu_list@.len() {
                Some(self.vcpu_list@[id as int])
            } else {
                None
            }),
    {
        if id < self.vcpu_list.len() {
            Some(self.vcpu_list[id])
        } else {
            None
        }
    }

    /// The mask of the physical cores on which the virtual CPUs in `mask`
    /// run, looking at the virtual CPUs `0..len`.
    pub open spec fn spec_vcpu_to_pcpu_mask(&self, mask: usize, len: int) -> usize
        decreases len,
    {
        if len <= 0 {
            0
        } else {
            let rest = self.spec_vcpu_to_pcpu_mask(mask, len - 1);
            let i = (len - 1) as usize;
            if mask & (1usize << i) != 0 && i < self.vcpu_list@.len() {
                rest | (1usize << self.vcpu_list@[i as int].phys_id)
            } else {
                rest
            }
        }
    }

    /// The virtual CPU of the machine that runs on the physical core
    /// `phys_id`: the first such among the virtual CPUs `from..`.
    pub open spec fn spec_vcpu_on(&self, phys_id: usize, from: int) -> Option<Vcpu>
        decreases self.vcpu_list@.len() - from,
    {
        if from < 0 || from >= self.vcpu_list@.len() {
            None
        } else if self.vcpu_list@[from].phys_id == phys_id {
            Some(self.vcpu_list@[from])
        } else {
            self.spec_vcpu_on(phys_id, from + 1)
        }
    }

    /// The mask of the virtual CPUs that run on the physical cores in
    /// `mask`, looking at the cores `0..len`.
    pub open spec fn spec_pcpu_to_vcpu_mask(&self, mask: usize, len: int) -> usize
        decreases len,
    {
        if len <= 0 {
            0
        } else {
            let rest = self.spec_pcpu_to_vcpu_mask(mask, len - 1);
            let i = (len - 1) as usize;
            match self.spec_vcpu_on(i, 0) {
                Some(vcpu) => if mask & (1usize << i) != 0 {
                    rest | (1usize << vcpu.id)
                } else {
                    rest
                },
                None => rest,
            }
        }
    }

    /// All virtual CPUs have an index and a core that a word-sized mask can
    /// name.
    pub open spec fn wf(&self) -> bool {
        forall|i: int|
            0 <= i < self.vcpu_list@.len() ==> (#[trigger] self.vcpu_list@[i]).phys_id < 32
                && self.vcpu_list@[i].id < 32
    }

    /// Maps a mask of virtual CPUs to the mask of the physical cores they run
    /// on.
    pub fn vcpu_to_pcpu_mask(&self, mask: usize, len: usize) -> (pmask: usize)
        requires
            self.wf(),
            len <= 32,
        ensures
            pmask == self.spec_vcpu_to_pcpu_mask(mask, len as int),
    {
        let mut pmask: usize = 0;
        let mut i: usize = 0;
        while i < len
            invariant
                self.wf(),
                i <= len <= 32,
                pmask == self.spec_vcpu_to_pcpu_mask(mask, i as int),
            decreases len - i,
        {
            if mask & (1usize << i) != 0 && i < self.vcpu_list.len() {
                pmask = pmask | (1usize << self.vcpu_list[i].phys_id);
            }
            i = i + 1;
        }
        pmask
    }

    /// Finds the virtual CPU of the machine that runs on the core `phys_id`.
    pub fn vcpu_on(&self, phys_id: usize) -> (r: Option<Vcpu>)
        ensures
            r == self.spec_vcpu_on(phys_id, 0),
    {
        let n = self.vcpu_list.len();
        let mut k: usize = 0;
        while k < n
            invariant
                k <= n,
                n == self.vcpu_list@.len(),
                self.spec_vcpu_on(phys_id, 0) == self.spec_vcpu_on(phys_id, k as int),
            decreases n - k,
        {
            if self.vcpu_list[k].phys_id == phys_id {
                return Some(self.vcpu_list[k]);
            }
            k = k + 1;
        }
        None
    }

    /// Maps a mask of physical cores to the mask of the virtual CPUs of the
    /// machine that run on them.
    pub fn pcpu_to_vcpu_mask(&self, mask: usize, len: usize) -> (vmask: usize)
        requires
            self.wf(),
            len <= 32,
        ensures
            vmask == self.spec_pcpu_to_vcpu_mask(mask, len as int),
    {
        let mut vmask: usize = 0;
        let mut i: usize = 0;
        while i < len
            invariant
                self.wf(),
                i <= len <= 32,
                vmask == self.spec_pcpu_to_vcpu_mask(mask, i as int),
            decreases len - i,
        {
            match self.vcpu_on(i) {
                Some(vcpu) => {
                    proof {
                        self.lemma_vcpu_on(i, 0);
                    }
                    if mask & (1usize << i) != 0 {
                        vmask = vmask | (1usize << vcpu.id);
                    }
                },
                None => {},
            }
            i = i + 1;
        }
        vmask
    }

    /// The virtual CPU found on a core is one of the machine's.
    pub proof fn lemma_vcpu_on(&self, phys_id: usize, from: int)
        requires
            0 <= from,
        ensures
            self.spec_vcpu_on(phys_id, from) matches Some(v) ==> exists|k: int|
                from <= k < self.vcpu_list@.len() && #[trigger] self.vcpu_list@[k] == v,
        decreases self.vcpu_list@.len() - from,
    {
        if from < self.vcpu_list@.len() && self.vcpu_list@[from].phys_id != phys_id {
            self.lemma_vcpu_on(phys_id, from + 1);
        }
    }

    /// The number of virtual CPUs.
    pub fn cpu_num(&self) -> (n: usize)
        ensures
            n == self.vcpu_list@.len(),
    {
        self.vcpu_list.len()
    }
}

impl VmTrait<Vcpu> for Vm {
    open spec fn spec_if_id(&self) -> usize {
        self.id
    }

    fn if_id(&self) -> (r: usize) {
        self.id
    }
}

/// The virtual CPUs that a physical core hosts, one slot per machine id.
pub struct VcpuArray {
    pub array: Vec<Option<Vcpu>>,
    pub len: usize,
}

impl VcpuArray {
    /// The array has one slot for each machine id.
    pub open spec fn wf(&self) -> bool {
        self.array@.len() == VCPU_ARRAY_SLOTS
    }

    /// The virtual CPU that machine `vm_id` runs on this core.
    pub open spec fn lookup(&self, vm_id: usize) -> Option<Vcpu> {
        if vm_id < self.array@.len() {
            self.array@[vm_id as int]
        } else {
            None
        }
    }

    /// An array with every slot free.
    pub fn new() -> (a: VcpuArray)
        ensures
            a.wf(),
            a.len == 0,
            forall|vm_id: usize| a.lookup(vm_id).is_none(),
    {
        let mut array: Vec<Option<Vcpu>> = Vec::new();
        let mut i: usize = 0;
        while i < VCPU_ARRAY_SLOTS
            invariant
                i <= VCPU_ARRAY_SLOTS,
                array@.len() == i,
                forall|j: int| 0 <= j < i ==> array@[j].is_none(),
            decreases VCPU_ARRAY_SLOTS - i,
        {
            array.push(None);
            i = i + 1;
        }
        VcpuArray { array, len: 0 }
    }

    /// Finds the virtual CPU that machine `vm_id` runs on this core.
    #[inline]
    pub fn pop_vcpu_through_vmid(&self, vm_id: usize) -> (r: Option<Vcpu>)
        ensures
            r == self.lookup(vm_id),
    {
        if vm_id < self.array.len() {
            self.array[vm_id]
        } else {
            None
        }
    }
}

/// A physical core: its id, the virtual CPU it is running, and the virtual
/// CPUs it hosts.
pub struct Pcpu {
    pub id: usize,
    pub active_vcpu: Option<Vcpu>,
    pub vcpu_array: VcpuArray,
}

impl Pcpu {
    /// The core is well formed when its array of hosted virtual CPUs is.
    pub open spec fn wf(&self) -> bool {
        self.vcpu_array.wf()
    }

    /// A core that runs and hosts nothing yet.
    pub fn new(id: usize) -> (p: Pcpu)
        ensures
            p.wf(),
            p.id == id,
            p.active_vcpu.is_none(),
            forall|vm_id: usize| p.vcpu_array.lookup(vm_id).is_none(),
    {
        Pcpu { id, active_vcpu: None, vcpu_array: VcpuArray::new() }
    }
}

impl PcpuTrait<Vcpu> for Pcpu {
    open spec fn spec_id(&self) -> usize {
        self.id
    }

    fn id(&self) -> (r: usize) {
        self.id
    }
}

/// The id of the machine whose virtual CPU the core is running.
pub fn active_vm_id(pcpu: &Pcpu) -> (r: usize)
    requires
        pcpu.active_vcpu.is_some(),
    ensures
        r == pcpu.active_vcpu.unwrap().vm_id,
{
    pcpu.active_vcpu.unwrap().vm_id
}

/// The index of the virtual CPU the core is running.
pub fn active_vcpu_id(pcpu: &Pcpu) -> (r: usize)
    requires
        pcpu.active_vcpu.is_some(),
    ensures
        r == pcpu.active_vcpu.unwrap().id,
{
    pcpu.active_vcpu.unwrap().id
}

/// The number of virtual CPUs of the running machine.
pub fn active_vm_ncpu(vm: &Vm) -> (r: usize)
    ensures
        r == vm.vcpu_list@.len(),
{
    vm.cpu_num()
}

} // verus!
