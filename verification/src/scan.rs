//! The device search: which Bluetooth search call comes next, what is kept of each answer,
//! and when the search ends. The caller makes the calls and reports what they returned.
use vstd::prelude::*;
use crate::device::{BluetoothDevice, DeviceView, device_of};
use crate::text::{int_repr, message_with_code};

verus! {

/// Where a search stands.
#[derive(Debug, PartialEq, Eq, Structural)]
pub enum SearchPhase {
    /// The first search call is to be made.
    Start,
    /// The current answer is to be read and recorded.
    Record,
    /// The call for the next answer is to be made.
    AwaitNext,
    /// The search handle is to be closed.
    Closing,
    /// The search is over; its results stand.
    Done,
    /// The search has failed; the caller stops.
    Aborted,
}

/// What the caller does next in a search.
#[derive(Debug, PartialEq, Eq, Structural)]
pub enum SearchAction {
    /// Read the current answer and record it.
    Record,
    /// Ask for the next answer.
    FindNext,
    /// Close the search handle.
    Close,
    /// Take the results.
    Finish,
    /// Stop with a failure: closing the handle reported success.
    Abort,
}

/// The abstract state of a device search within one radio: its phase and the devices
/// recorded so far, in order.
pub struct DeviceSearchView {
    pub phase: SearchPhase,
    pub devices: Seq<DeviceView>,
}

/// The search for the devices of one radio.
pub struct DeviceSearch {
    phase: SearchPhase,
    devices: Vec<BluetoothDevice>,
}

pub open spec fn device_views(devices: Seq<BluetoothDevice>) -> Seq<DeviceView> {
    devices.map_values(|d: BluetoothDevice| d@)
}

impl View for DeviceSearch {
    type V = DeviceSearchView;

    closed spec fn view(&self) -> DeviceSearchView {
        DeviceSearchView { phase: self.phase, devices: device_views(self.devices@) }
    }
}

impl DeviceSearch {
    /// A search that has made no call and recorded nothing.
    pub fn new() -> (s: DeviceSearch)
        ensures
            s@.phase == SearchPhase::Start,
            s@.devices == Seq::<DeviceView>::empty(),
    {
        DeviceSearch { phase: SearchPhase::Start, devices: Vec::new() }
    }

    /// After the first-device call: an invalid handle ends the search with nothing found,
    /// whatever error was reported; a valid one has the first answer recorded.
    pub fn first_device(&mut self, handle_invalid: bool) -> (a: SearchAction)
        requires
            old(self)@.phase == SearchPhase::Start,
        ensures
            final(self)@.devices == old(self)@.devices,
            handle_invalid ==> a == SearchAction::Finish && final(self)@.phase == SearchPhase::Done,
            !handle_invalid ==> a == SearchAction::Record && final(self)@.phase
                == SearchPhase::Record,
    {
        if handle_invalid {
            self.phase = SearchPhase::Done;
            SearchAction::Finish
        } else {
            self.phase = SearchPhase::Record;
            SearchAction::Record
        }
    }

    /// Records the answer the search holds (its name field and its address bytes), then asks
    /// for the next one.
    pub fn record(&mut self, name_utf16: &[u16], address: [u8; 6]) -> (a: SearchAction)
        requires
            old(self)@.phase == SearchPhase::Record,
        ensures
            final(self)@.devices == old(self)@.devices.push(device_of(name_utf16@, address@)),
            final(self)@.phase == SearchPhase::AwaitNext,
            a == SearchAction::FindNext,
    {
        let device = BluetoothDevice::from_raw(name_utf16, address);
        self.devices.push(device);
        proof {
            assert(device_views(self.devices@) =~= device_views(old(self).devices@).push(device@));
        }
        self.phase = SearchPhase::AwaitNext;
        SearchAction::FindNext
    }

    /// After the next-device call: when it reports a next device the search stops there and
    /// the handle is closed; when it does not, the answer the search holds is recorded again.
    pub fn next_device(&mut self, found: bool) -> (a: SearchAction)
        requires
            old(self)@.phase == SearchPhase::AwaitNext,
        ensures
            final(self)@.devices == old(self)@.devices,
            found ==> a == SearchAction::Close && final(self)@.phase == SearchPhase::Closing,
            !found ==> a == SearchAction::Record && final(self)@.phase == SearchPhase::Record,
    {
        if found {
            self.phase = SearchPhase::Closing;
            SearchAction::Close
        } else {
            self.phase = SearchPhase::Record;
            SearchAction::Record
        }
    }

    /// After closing the handle: a close that reports success aborts the search; one that
    /// reports failure ends it with its results.
    pub fn closed(&mut self, close_succeeded: bool) -> (a: SearchAction)
        requires
            old(self)@.phase == SearchPhase::Closing,
        ensures
            final(self)@.devices == old(self)@.devices,
            close_succeeded ==> a == SearchAction::Abort && final(self)@.phase
                == SearchPhase::Aborted,
            !close_succeeded ==> a == SearchAction::Finish && final(self)@.phase
                == SearchPhase::Done,
    {
        if close_succeeded {
            self.phase = SearchPhase::Aborted;
            SearchAction::Abort
        } else {
            self.phase = SearchPhase::Done;
            SearchAction::Finish
        }
    }

    /// The devices recorded, in the order recorded.
    pub fn into_devices(self) -> (devices: Vec<BluetoothDevice>)
        ensures
            device_views(devices@) == self@.devices,
    {
        self.devices
    }
}

/// The abstract state of a search over the radios: its phase and the devices gathered.
pub struct RadioSearchView {
    pub phase: SearchPhase,
    pub devices: Seq<DeviceView>,
}

/// The search for connected devices over every radio.
pub struct RadioSearch {
    phase: SearchPhase,
    devices: Vec<BluetoothDevice>,
}

impl View for RadioSearch {
    type V = RadioSearchView;

    closed spec fn view(&self) -> RadioSearchView {
        RadioSearchView { phase: self.phase, devices: device_views(self.devices@) }
    }
}

impl RadioSearch {
    /// A search that has made no call and gathered nothing.
    pub fn new() -> (s: RadioSearch)
        ensures
            s@.phase == SearchPhase::Start,
            s@.devices == Seq::<DeviceView>::empty(),
    {
        RadioSearch { phase: SearchPhase::Start, devices: Vec::new() }
    }

    /// After the first-radio call: an invalid handle fails the search with
    /// `No bluetooth devices error: <last error>`; a valid one has the first radio searched.
    pub fn first_radio(&mut self, handle_invalid: bool, last_error: u32) -> (r: Result<
        SearchAction,
        String,
    >)
        requires
            old(self)@.phase == SearchPhase::Start,
        ensures
            final(self)@.devices == old(self)@.devices,
            handle_invalid ==> (r matches Err(m) && m@ == "No bluetooth devices error: "@
                + int_repr(last_error as int)) && final(self)@.phase == SearchPhase::Aborted,
            !handle_invalid ==> r == Ok::<SearchAction, String>(SearchAction::Record)
                && final(self)@.phase == SearchPhase::Record,
    {
        if handle_invalid {
            self.phase = SearchPhase::Aborted;
            Err(message_with_code("No bluetooth devices error: ", last_error as i64))
        } else {
            self.phase = SearchPhase::Record;
            Ok(SearchAction::Record)
        }
    }

    /// Adds the devices found in the current radio after those gathered, then asks for the
    /// next radio.
    pub fn record_radio(&mut self, found: Vec<BluetoothDevice>) -> (a: SearchAction)
        requires
            old(self)@.phase == SearchPhase::Record,
        ensures
            final(self)@.devices == old(self)@.devices + device_views(found@),
            final(self)@.phase == SearchPhase::AwaitNext,
            a == SearchAction::FindNext,
    {
        let mut found = found;
        let ghost found_views = device_views(found@);
        self.devices.append(&mut found);
        proof {
            assert(device_views(self.devices@) =~= device_views(old(self).devices@) + found_views);
        }
        self.phase = SearchPhase::AwaitNext;
        SearchAction::FindNext
    }

    /// After the next-radio call: when it reports a next radio the search stops there and
    /// the handle is closed; when it does not, the radio held is searched again.
    pub fn next_radio(&mut self, found: bool) -> (a: SearchAction)
        requires
            old(self)@.phase == SearchPhase::AwaitNext,
        ensures
            final(self)@.devices == old(self)@.devices,
            found ==> a == SearchAction::Close && final(self)@.phase == SearchPhase::Closing,
            !found ==> a == SearchAction::Record && final(self)@.phase == SearchPhase::Record,
    {
        if found {
            self.phase = SearchPhase::Closing;
            SearchAction::Close
        } else {
            self.phase = SearchPhase::Record;
            SearchAction::Record
        }
    }

    /// After closing the handle: a close that reports success aborts the search; one that
    /// reports failure ends it with the devices gathered.
    pub fn closed(&mut self, close_succeeded: bool) -> (a: SearchAction)
        requires
            old(self)@.phase == SearchPhase::Closing,
        ensures
            final(self)@.devices == old(self)@.devices,
            close_succeeded ==> a == SearchAction::Abort && final(self)@.phase
                == SearchPhase::Aborted,
            !close_succeeded ==> a == SearchAction::Finish && final(self)@.phase
                == SearchPhase::Done,
    {
        if close_succeeded {
            self.phase = SearchPhase::Aborted;
            SearchAction::Abort
        } else {
            self.phase = SearchPhase::Done;
            SearchAction::Finish
        }
    }

    /// The devices gathered over the radios, in order.
    pub fn into_devices(self) -> (devices: Vec<BluetoothDevice>)
        ensures
            device_views(devices@) == self@.devices,
    {
        self.devices
    }
}

} // verus!
