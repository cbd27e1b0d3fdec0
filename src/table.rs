use vstd::prelude::*;

verus! {

/// The part of the firmware's system table that the application reads: the
/// table's revision and the reference to the console output capability.
/// `P` is the form that reference takes; the table belongs to the firmware,
/// and the application only borrows it.
pub struct SystemTable<P> {
    pub revision: u32,
    pub con_out: P,
}

/// The console output capability of the table: the reference stored in its
/// console-output field, handed back as it stands, unchecked.
pub fn get_output_capability<P: Copy>(table: &SystemTable<P>) -> (r: P)
    ensures
        r == table.con_out,
{
    table.con_out
}

} // verus!
