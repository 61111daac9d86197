//! Device-local security-policy monitor.
//!
//! The sentinel watches security events reported by the host platform and
//! decides, against a fixed policy, when the device should destroy its key
//! material ("wipe").

use vstd::prelude::*;

verus! {

/// A security-relevant occurrence reported by the host platform.
#[derive(Debug, Clone)]
pub enum SentinelEvent {
    FailedLoginAttempt,
    UnauthorizedDbAccess,
    PanicGestureTriggered,
    ForensicExtractionDetected,
}

/// The device owner's standing instructions for when to wipe.
#[derive(Debug, Clone)]
pub struct SentinelPolicy {
    pub max_failed_logins: u32,
    pub auto_wipe_on_forensics: bool,
    pub shred_keys_on_panic: bool,
}

/// A snapshot of the sentinel as reported to the host user interface.
#[derive(Debug, Clone)]
pub struct SentinelStatus {
    pub is_active: bool,
    pub last_event: Option<SentinelEvent>,
    pub threat_level: u32,
}

/// Tracks security events against a policy and recommends wipes.
pub struct LocalSentinel {
    policy: SentinelPolicy,
    failed_login_count: u32,
}

impl LocalSentinel {
    /// The policy this sentinel was constructed with.
    pub closed spec fn spec_policy(&self) -> SentinelPolicy {
        self.policy
    }

    /// How many failed login attempts have been observed so far.
    pub closed spec fn spec_failed_logins(&self) -> u32 {
        self.failed_login_count
    }

    pub fn new(policy: SentinelPolicy) -> (s: Self)
        ensures
            s.spec_policy() == policy,
            s.spec_failed_logins() == 0,
    {
        Self { policy, failed_login_count: 0 }
    }

    /// Processes a security event and returns whether a wipe is recommended.
    pub fn process_event(&mut self, event: SentinelEvent) -> (wipe: bool)
        requires
            event is FailedLoginAttempt ==> old(self).spec_failed_logins() < u32::MAX,
        ensures
            final(self).spec_policy() == old(self).spec_policy(),
            match event {
                SentinelEvent::FailedLoginAttempt => {
                    &&& final(self).spec_failed_logins() == old(self).spec_failed_logins() + 1
                    &&& wipe == (final(self).spec_failed_logins()
                        >= old(self).spec_policy().max_failed_logins)
                },
                SentinelEvent::UnauthorizedDbAccess => {
                    &&& final(self).spec_failed_logins() == old(self).spec_failed_logins()
                    &&& wipe == old(self).spec_policy().auto_wipe_on_forensics
                },
                SentinelEvent::PanicGestureTriggered => {
                    &&& final(self).spec_failed_logins() == old(self).spec_failed_logins()
                    &&& wipe == old(self).spec_policy().shred_keys_on_panic
                },
                SentinelEvent::ForensicExtractionDetected => {
                    &&& final(self).spec_failed_logins() == old(self).spec_failed_logins()
                    &&& wipe == true
                },
            },
    {
        match event {
            SentinelEvent::FailedLoginAttempt => {
                self.failed_login_count = self.failed_login_count + 1;
                self.failed_login_count >= self.policy.max_failed_logins
            },
            SentinelEvent::UnauthorizedDbAccess => self.policy.auto_wipe_on_forensics,
            SentinelEvent::PanicGestureTriggered => self.policy.shred_keys_on_panic,
            SentinelEvent::ForensicExtractionDetected => true,
        }
    }

    /// Marks the point at which a wipe becomes effective. The actual key
    /// destruction (zeroising buffers, deleting keystore entries) is the
    /// host platform's duty; the core holds no key material of its own.
    pub fn shred_identity(&self) {
    }
}

} // verus!
