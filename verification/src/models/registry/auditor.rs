//! How well a machine can run a model, from how the model's memory need
//! compares with the machine's memory. The figures are floating-point; the
//! caller makes the comparisons and passes their outcome.
use vstd::prelude::*;

verus! {

/// How well a model runs here.
#[derive(Debug, Clone, Copy, PartialEq, Eq, Structural)]
pub enum HealthStatus {
    /// Fast: it fits the GPU.
    Healthy,
    /// Usable.
    Suboptimal,
    /// Slow: it takes most of the RAM.
    Heavy,
    /// Served by a cloud API.
    Cloud,
    /// It does not fit.
    Disabled,
}

/// How a model's memory need compares with the machine.
#[derive(Debug, Clone, Copy)]
pub struct MemoryFit {
    /// The need is at most the free VRAM of the first GPU (none counts as 0).
    pub fits_vram: bool,
    /// The need is at most the total RAM.
    pub fits_ram: bool,
    /// The need is at most 40% of the total RAM.
    pub fits_ram_share: bool,
}

/// The status for a memory comparison.
pub open spec fn status_for(fit: MemoryFit, requires_gpu: bool) -> HealthStatus {
    if requires_gpu {
        if fit.fits_vram {
            HealthStatus::Healthy
        } else if fit.fits_ram {
            HealthStatus::Suboptimal
        } else {
            HealthStatus::Disabled
        }
    } else if fit.fits_ram_share {
        HealthStatus::Suboptimal
    } else if fit.fits_ram {
        HealthStatus::Heavy
    } else {
        HealthStatus::Disabled
    }
}

/// Grades models against the machine.
pub struct HardwareAuditor;

impl HardwareAuditor {
    /// A GPU model is healthy in VRAM, suboptimal in RAM, disabled beyond
    /// it; a CPU model is suboptimal within 40% of the RAM, heavy within
    /// the rest, disabled beyond it.
    pub fn evaluate_hardware(&self, fit: MemoryFit, requires_gpu: bool) -> (r: HealthStatus)
        ensures
            r == status_for(fit, requires_gpu),
    {
        if requires_gpu {
            if fit.fits_vram {
                HealthStatus::Healthy
            } else if fit.fits_ram {
                HealthStatus::Suboptimal
            } else {
                HealthStatus::Disabled
            }
        } else if fit.fits_ram_share {
            HealthStatus::Suboptimal
        } else if fit.fits_ram {
            HealthStatus::Heavy
        } else {
            HealthStatus::Disabled
        }
    }

    /// The status of a model; without a readable hardware profile (`None`)
    /// it is suboptimal.
    pub fn audit_performance(&self, fit: Option<MemoryFit>, requires_gpu: bool) -> (r: HealthStatus)
        ensures
            r == match fit {
                Some(f) => status_for(f, requires_gpu),
                None => HealthStatus::Suboptimal,
            },
    {
        match fit {
            Some(f) => self.evaluate_hardware(f, requires_gpu),
            None => HealthStatus::Suboptimal,
        }
    }
}

} // verus!
