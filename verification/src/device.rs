use vstd::prelude::*;

verus! {

/// One opaque sector label carried by a device. The core stores these for
/// round-trip fidelity but never inspects them.
#[verifier::ext_equal]
pub struct Sector(pub String);

impl View for Sector {
    type V = Seq<char>;

    open spec fn view(&self) -> Seq<char> {
        self.0@
    }
}

impl Clone for Sector {
    fn clone(&self) -> (r: Self)
        ensures
            r == *self,
    {
        Sector(self.0.clone())
    }
}

/// Mathematical model of a device; contracts speak of this shape.
#[verifier::ext_equal]
pub ghost struct DeviceModel {
    pub name: Seq<char>,
    pub frequency_min: u32,
    pub frequency_max: u32,
    pub pending_removal: bool,
    pub sectors: Seq<Seq<char>>,
}

/// One managed client device.
///
/// The frequency bounds are raw 32-bit encodings fixed at the boundary that
/// produced them; the core stores them without interpreting them, and no
/// invariant relates the minimum to the maximum.
#[verifier::ext_equal]
pub struct Device {
    pub name: String,
    pub frequency_min: u32,
    pub frequency_max: u32,
    pub pending_removal: bool,
    pub sectors: Vec<Sector>,
}

impl View for Device {
    type V = DeviceModel;

    open spec fn view(&self) -> DeviceModel {
        DeviceModel {
            name: self.name@,
            frequency_min: self.frequency_min,
            frequency_max: self.frequency_max,
            pending_removal: self.pending_removal,
            sectors: self.sectors@.map_values(|s: Sector| s@),
        }
    }
}

/// The device a fresh draft starts from: everything empty or zero.
pub open spec fn blank_device() -> DeviceModel {
    DeviceModel {
        name: Seq::empty(),
        frequency_min: 0,
        frequency_max: 0,
        pending_removal: false,
        sectors: Seq::empty(),
    }
}

/// `d` with its removal flag raised; every other field kept.
pub open spec fn with_removal(d: DeviceModel) -> DeviceModel {
    DeviceModel { pending_removal: true, ..d }
}

/// `d` with its minimum frequency bound replaced.
pub open spec fn with_min(d: DeviceModel, v: u32) -> DeviceModel {
    DeviceModel { frequency_min: v, ..d }
}

/// `d` with its maximum frequency bound replaced.
pub open spec fn with_max(d: DeviceModel, v: u32) -> DeviceModel {
    DeviceModel { frequency_max: v, ..d }
}

/// `d` with its name replaced.
pub open spec fn with_name(d: DeviceModel, n: Seq<char>) -> DeviceModel {
    DeviceModel { name: n, ..d }
}

impl Default for Device {
    fn default() -> (r: Self)
        ensures
            r@ == blank_device(),
    {
        let r = Device {
            name: String::new(),
            frequency_min: 0,
            frequency_max: 0,
            pending_removal: false,
            sectors: Vec::new(),
        };
        proof {
            assert(r@ =~~= blank_device());
        }
        r
    }
}

fn clone_sectors(v: &Vec<Sector>) -> (r: Vec<Sector>)
    ensures
        r@ == v@,
{
    let mut r: Vec<Sector> = Vec::new();
    let mut i: usize = 0;
    while i < v.len()
        invariant
            i <= v.len(),
            r@ == v@.take(i as int),
        decreases v.len() - i,
    {
        r.push(v[i].clone());
        proof {
            assert(v@.take(i as int + 1) =~= v@.take(i as int).push(v@[i as int]));
        }
        i += 1;
    }
    proof {
        assert(v@.take(v.len() as int) =~= v@);
    }
    r
}

impl Clone for Device {
    fn clone(&self) -> (r: Self)
        ensures
            r@ == self@,
    {
        let r = Device {
            name: self.name.clone(),
            frequency_min: self.frequency_min,
            frequency_max: self.frequency_max,
            pending_removal: self.pending_removal,
            sectors: clone_sectors(&self.sectors),
        };
        proof {
            assert(r@ =~~= self@);
        }
        r
    }
}

} // verus!
