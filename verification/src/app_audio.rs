//! Capture of a single application's audio output: which sources can be
//! offered and when a capture may start.
//!
//! The audio server itself is reached by the caller, which reports whether
//! its socket exists and carries the captured samples.

use vstd::prelude::*;

use crate::media::AppAudioSource;

verus! {

/// Why an application audio capture cannot start.
#[derive(Debug, Clone, Copy, PartialEq, Eq)]
pub enum AppAudioError {
    /// No audio server to capture from on this platform.
    NotAvailable,
    /// A capture is already running.
    AlreadyCapturing,
}

impl AppAudioError {
    /// A human-readable description.
    pub fn message(&self) -> (m: &'static str)
        ensures
            m@ == match self {
                AppAudioError::NotAvailable => "app audio capture not available on this platform"@,
                AppAudioError::AlreadyCapturing => "already capturing"@,
            },
    {
        match self {
            AppAudioError::NotAvailable => "app audio capture not available on this platform",
            AppAudioError::AlreadyCapturing => "already capturing",
        }
    }
}

/// Capture for platforms without an audio server: offers nothing and never
/// starts.
pub struct StubAppAudioCapture;

impl StubAppAudioCapture {
    /// No application can be captured.
    pub fn list_capturable_apps(&self) -> (apps: Vec<AppAudioSource>)
        ensures
            apps@.len() == 0,
    {
        Vec::new()
    }

    /// Capturing is not available.
    pub fn start_capture(&self, _source: &AppAudioSource) -> (r: Result<(), AppAudioError>)
        ensures
            r == Err::<(), AppAudioError>(AppAudioError::NotAvailable),
    {
        Err(AppAudioError::NotAvailable)
    }

    /// Nothing to stop.
    pub fn stop_capture(&self) {
    }
}

/// Capture through a PipeWire audio server: at most one capture at a time.
pub struct PipeWireAppAudioCapture {
    available: bool,
    capturing: bool,
}

impl PipeWireAppAudioCapture {
    pub closed spec fn available(&self) -> bool {
        self.available
    }

    pub closed spec fn capturing(&self) -> bool {
        self.capturing
    }

    /// Capture through the server whose socket the caller looked for; without
    /// the socket there is no server to capture from.
    pub fn new(socket_exists: bool) -> (r: Result<Self, AppAudioError>)
        ensures
            socket_exists ==> (r matches Ok(c) && c.available() && !c.capturing()),
            !socket_exists ==> r matches Err(AppAudioError::NotAvailable),
    {
        if !socket_exists {
            return Err(AppAudioError::NotAvailable);
        }
        Ok(PipeWireAppAudioCapture { available: true, capturing: false })
    }

    /// The applications that can be captured: none are enumerated yet.
    pub fn list_capturable_apps(&self) -> (apps: Vec<AppAudioSource>)
        ensures
            apps@.len() == 0,
    {
        Vec::new()
    }

    /// Start capturing `source`: refused without a server or while another
    /// capture runs.
    pub fn start_capture(&mut self, _source: &AppAudioSource) -> (r: Result<(), AppAudioError>)
        ensures
            final(self).available() == old(self).available(),
            !old(self).available() ==> r == Err::<(), AppAudioError>(AppAudioError::NotAvailable)
                && final(self).capturing() == old(self).capturing(),
            old(self).available() && old(self).capturing() ==> r == Err::<(), AppAudioError>(
                AppAudioError::AlreadyCapturing,
            ) && final(self).capturing(),
            old(self).available() && !old(self).capturing() ==> r == Ok::<(), AppAudioError>(())
                && final(self).capturing(),
    {
        if !self.available {
            return Err(AppAudioError::NotAvailable);
        }
        if self.capturing {
            return Err(AppAudioError::AlreadyCapturing);
        }
        self.capturing = true;
        Ok(())
    }

    /// Stop the capture; returns whether one was running.
    pub fn stop_capture(&mut self) -> (was: bool)
        ensures
            was == old(self).capturing(),
            !final(self).capturing(),
            final(self).available() == old(self).available(),
    {
        let was = self.capturing;
        self.capturing = false;
        was
    }

    /// Whether a capture is running.
    pub fn is_capturing(&self) -> (b: bool)
        ensures
            b == self.capturing(),
    {
        self.capturing
    }
}

} // verus!
