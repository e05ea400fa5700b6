//! Connected outputs as the display server reports them.
use vstd::prelude::*;

verus! {

/// One connected output.
#[derive(Debug, Clone)]
pub struct Monitor {
    /// The output's name, stable per physical output.
    pub name: String,
    pub description: String,
    pub width: u32,
    pub height: u32,
    /// Refresh rate in hertz.
    pub refresh_rate: u32,
}

/// The values of a monitor, with texts as character sequences.
pub struct MonitorModel {
    pub name: Seq<char>,
    pub description: Seq<char>,
    pub width: u32,
    pub height: u32,
    pub refresh_rate: u32,
}

impl View for Monitor {
    type V = MonitorModel;

    open spec fn view(&self) -> MonitorModel {
        MonitorModel {
            name: self.name@,
            description: self.description@,
            width: self.width,
            height: self.height,
            refresh_rate: self.refresh_rate,
        }
    }
}

impl Monitor {
    /// A copy with the same values.
    pub fn copied(&self) -> (r: Self)
        ensures
            r@ == self@,
    {
        Monitor {
            name: self.name.clone(),
            description: self.description.clone(),
            width: self.width,
            height: self.height,
            refresh_rate: self.refresh_rate,
        }
    }
}

/// One video mode an output advertises.
#[derive(Debug, Clone, Copy)]
pub struct OutputMode {
    pub width: i32,
    pub height: i32,
    /// Refresh rate in millihertz.
    pub refresh_mhz: i32,
    pub current: bool,
}

/// The mode that describes an output: the current one, else the first.
pub open spec fn chosen_mode(modes: Seq<OutputMode>) -> Option<OutputMode> {
    if exists|i: int| 0 <= i < modes.len() && (#[trigger] modes[i]).current {
        let i = choose|i: int|
            0 <= i < modes.len() && (#[trigger] modes[i]).current && forall|j: int|
                0 <= j < i ==> !(#[trigger] modes[j]).current;
        Some(modes[i])
    } else if modes.len() > 0 {
        Some(modes[0])
    } else {
        None
    }
}

/// A refresh rate in hertz: millihertz divided by 1000, at least 1; 60 when
/// the output reports none.
pub open spec fn hertz(mhz: i32) -> u32 {
    if mhz > 0 {
        if mhz / 1000 < 1 {
            1
        } else {
            (mhz / 1000) as u32
        }
    } else {
        60
    }
}

proof fn lemma_first_current(modes: Seq<OutputMode>, i: int)
    requires
        0 <= i < modes.len(),
        modes[i].current,
        forall|j: int| 0 <= j < i ==> !(#[trigger] modes[j]).current,
    ensures
        chosen_mode(modes) == Some(modes[i]),
{
    let k = choose|k: int|
        0 <= k < modes.len() && (#[trigger] modes[k]).current && forall|j: int|
            0 <= j < k ==> !(#[trigger] modes[j]).current;
    assert(0 <= k < modes.len() && modes[k].current && forall|j: int|
        0 <= j < k ==> !(#[trigger] modes[j]).current);
    if k < i {
        assert(!modes[k].current);
    } else if i < k {
        assert(!modes[i].current);
    }
}

/// The monitor an output describes: its name ("unknown" if it has none),
/// its description ("No description" if none), and the size and refresh
/// rate of its chosen mode (1920x1080 at 60 Hz without modes).
pub fn monitor_from_output(
    name: Option<String>,
    description: Option<String>,
    modes: &[OutputMode],
) -> (r: Monitor)
    ensures
        r.name@ == match name {
            Some(n) => n@,
            None => "unknown"@,
        },
        r.description@ == match description {
            Some(d) => d@,
            None => "No description"@,
        },
        match chosen_mode(modes@) {
            Some(m) => r.width == m.width as u32 && r.height == m.height as u32 && r.refresh_rate
                == hertz(m.refresh_mhz),
            None => r.width == 1920 && r.height == 1080 && r.refresh_rate == 60,
        },
{
    let mut found: Option<usize> = None;
    let mut i: usize = 0;
    while i < modes.len()
        invariant
            i <= modes@.len(),
            found is None ==> forall|j: int| 0 <= j < i ==> !(#[trigger] modes@[j]).current,
            found matches Some(k) ==> k < modes@.len() && modes@[k as int].current && forall|
                j: int,
            | 0 <= j < k ==> !(#[trigger] modes@[j]).current,
        decreases modes@.len() - i,
    {
        if found.is_none() && modes[i].current {
            found = Some(i);
        }
        i = i + 1;
    }
    let mode = match found {
        Some(k) => {
            proof {
                lemma_first_current(modes@, k as int);
            }
            Some(modes[k])
        },
        None => {
            if modes.len() > 0 {
                Some(modes[0])
            } else {
                None
            }
        },
    };
    let (width, height, refresh_rate) = match mode {
        Some(m) => {
            let hz: u32 = if m.refresh_mhz > 0 {
                let d = m.refresh_mhz / 1000;
                if d < 1 {
                    1
                } else {
                    d as u32
                }
            } else {
                60
            };
            #[verifier::truncate]
            let w = m.width as u32;
            #[verifier::truncate]
            let h = m.height as u32;
            (w, h, hz)
        },
        None => (1920, 1080, 60),
    };
    Monitor {
        name: match name {
            Some(n) => n,
            None => "unknown".to_owned(),
        },
        description: match description {
            Some(d) => d,
            None => "No description".to_owned(),
        },
        width,
        height,
        refresh_rate,
    }
}

} // verus!
