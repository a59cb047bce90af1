use vstd::prelude::*;

use crate::error::HSLinkError;
use crate::frame::{encode_frame, frame_of, MAX_PAYLOAD};

verus! {

/// The open device: its handle and the serial number it was opened under.
struct OpenDevice<H> {
    handle: H,
    serial_number: String,
}

/// The connection to at most one probe. `H` is the caller's device handle;
/// the session owns it while open and drops it on close or replacement.
///
/// Its view is the serial number of the open device, or `None` when closed.
pub struct Session<H> {
    device: Option<OpenDevice<H>>,
}

impl<H> View for Session<H> {
    type V = Option<Seq<char>>;

    closed spec fn view(&self) -> Option<Seq<char>> {
        match self.device {
            Some(d) => Some(d.serial_number@),
            None => None,
        }
    }
}

impl<H> Session<H> {
    /// The handle held while the session is open.
    pub closed spec fn handle(&self) -> Option<H> {
        match self.device {
            Some(d) => Some(d.handle),
            None => None,
        }
    }

    /// A closed session.
    pub fn new() -> (r: Self)
        ensures
            r@ is None,
            r.handle() is None,
    {
        Session { device: None }
    }

    pub fn is_open(&self) -> (r: bool)
        ensures
            r == (self@ is Some),
            r == (self.handle() is Some),
    {
        self.device.is_some()
    }

    /// The serial number of the open device.
    pub fn serial_number(&self) -> (r: Option<String>)
        ensures
            match r {
                Some(s) => self@ == Some(s@),
                None => self@ is None,
            },
    {
        match &self.device {
            Some(d) => Some(d.serial_number.clone()),
            None => None,
        }
    }

    /// The handle of the open device, or `DeviceNotOpened` when closed.
    pub fn device(&self) -> (r: Result<&H, HSLinkError>)
        ensures
            match r {
                Ok(h) => self@ is Some && self.handle() == Some(*h),
                Err(e) => self@ is None && self.handle() is None && e
                    == HSLinkError::DeviceNotOpened,
            },
    {
        match &self.device {
            Some(d) => Ok(&d.handle),
            None => Err(HSLinkError::DeviceNotOpened),
        }
    }

    /// Commits the outcome of opening the device chosen for `requested`.
    /// `handle` is what opening gave (`None`: the device could not be
    /// opened); `opened_serial` is the serial number of the device that was
    /// opened. The session takes the handle only where that serial number is
    /// the one requested; it then replaces any device held before.
    pub fn commit_open(
        &mut self,
        requested: &String,
        opened_serial: &Option<String>,
        handle: Option<H>,
    ) -> (r: Result<String, HSLinkError>)
        ensures
            match r {
                Ok(s) => s@ == requested@ && final(self)@ == Some(requested@) && handle is Some
                    && final(self).handle() == handle,
                Err(e) => *final(self) == *old(self) && (e == HSLinkError::DeviceNotOpened
                    || e == HSLinkError::DeviceNotFound),
            },
            handle is None ==> r == Err::<String, HSLinkError>(HSLinkError::DeviceNotOpened),
            handle is Some ==> (r is Ok <==> (opened_serial is Some && opened_serial->Some_0@
                == requested@)),
            handle is Some && r is Err ==> r == Err::<String, HSLinkError>(
                HSLinkError::DeviceNotFound,
            ),
    {
        match handle {
            None => Err(HSLinkError::DeviceNotOpened),
            Some(h) => match opened_serial {
                Some(sn) => {
                    if sn.eq(requested) {
                        self.device = Some(OpenDevice { handle: h, serial_number: sn.clone() });
                        Ok(sn.clone())
                    } else {
                        Err(HSLinkError::DeviceNotFound)
                    }
                },
                None => Err(HSLinkError::DeviceNotFound),
            },
        }
    }

    /// The frame to send for `payload`: `DeviceNotOpened` when closed, so
    /// that nothing is sent, and otherwise what `encode_frame` gives.
    pub fn prepare_write(&self, payload: &Vec<u8>) -> (r: Result<Vec<u8>, HSLinkError>)
        ensures
            self@ is None ==> r == Err::<Vec<u8>, HSLinkError>(HSLinkError::DeviceNotOpened),
            self@ is Some ==> match r {
                Ok(frame) => payload@.len() <= MAX_PAYLOAD && frame@ == frame_of(payload@),
                Err(e) => payload@.len() > MAX_PAYLOAD && e == HSLinkError::PayloadTooLong,
            },
    {
        if self.device.is_none() {
            return Err(HSLinkError::DeviceNotOpened);
        }
        encode_frame(payload)
    }

    /// Closes the session, dropping its handle; `DeviceNotOpened`, with
    /// nothing changed, where it was closed already.
    pub fn close(&mut self) -> (r: Result<(), HSLinkError>)
        ensures
            old(self)@ is None ==> r == Err::<(), HSLinkError>(HSLinkError::DeviceNotOpened)
                && *final(self) == *old(self),
            old(self)@ is Some ==> r is Ok && final(self)@ is None && final(self).handle() is None,
    {
        if self.device.is_none() {
            return Err(HSLinkError::DeviceNotOpened);
        }
        self.device = None;
        Ok(())
    }
}

/// The outcome of writing a frame: the number of bytes written, or `None`
/// where the write failed.
pub fn write_outcome(written: Option<usize>) -> (r: Result<(), HSLinkError>)
    ensures
        r is Ok <==> written is Some,
        r is Err ==> r == Err::<(), HSLinkError>(HSLinkError::WriteErr),
{
    match written {
        Some(_) => Ok(()),
        None => Err(HSLinkError::WriteErr),
    }
}

} // verus!
