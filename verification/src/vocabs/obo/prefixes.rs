use vstd::prelude::*;

verus! {

pub const CHEBI: &'static str = "chebi";

pub const GENO: &'static str = "geno";

pub const MONDO: &'static str = "mondo";

pub const RO: &'static str = "ro";

pub const SO: &'static str = "so";

pub const UBERON: &'static str = "uberon";

} // verus!
