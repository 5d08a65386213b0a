//! The status line of the simulator's window, and what each of its buttons
//! is called.
use vstd::prelude::*;
use crate::text::push_text;

verus! {

/// The kinds of CSV file the window loads.
#[derive(Debug, Clone, Copy, PartialEq, Eq, Structural)]
pub enum CsvKind {
    Solar,
    Power,
    Weather,
}

impl CsvKind {
    pub open spec fn spec_name(self) -> Seq<char> {
        match self {
            CsvKind::Solar => "Solar"@,
            CsvKind::Power => "Power"@,
            CsvKind::Weather => "Weather"@,
        }
    }

    pub open spec fn spec_button(self) -> Seq<char> {
        match self {
            CsvKind::Solar => "Select Solar CSV"@,
            CsvKind::Power => "Select Power CSV"@,
            CsvKind::Weather => "Selected Weather CSV"@,
        }
    }

    /// `Solar`, `Power` or `Weather`.
    pub fn name(self) -> (r: &'static str)
        ensures
            r@ == self.spec_name(),
    {
        match self {
            CsvKind::Solar => "Solar",
            CsvKind::Power => "Power",
            CsvKind::Weather => "Weather",
        }
    }

    /// The label of the button that loads this kind.
    pub fn button_label(self) -> (r: &'static str)
        ensures
            r@ == self.spec_button(),
    {
        match self {
            CsvKind::Solar => "Select Solar CSV",
            CsvKind::Power => "Select Power CSV",
            CsvKind::Weather => "Selected Weather CSV",
        }
    }

    /// The title of the file dialog: `Select Solar Data` and so on.
    pub fn dialog_title(self) -> (r: String)
        ensures
            r@ == "Select "@ + self.spec_name() + " Data"@,
    {
        let mut s = String::new();
        push_text(&mut s, "Select ");
        push_text(&mut s, self.name());
        push_text(&mut s, " Data");
        s
    }
}

/// The window's state: the message under the buttons.
pub struct MyApp {
    message: String,
}

impl Default for MyApp {
    fn default() -> (r: MyApp)
        ensures
            r.spec_message() == "Please Push Button for Import CSV Files"@,
    {
        let mut message = String::new();
        push_text(&mut message, "Please Push Button for Import CSV Files");
        MyApp { message }
    }
}

impl MyApp {
    pub closed spec fn spec_message(self) -> Seq<char> {
        self.message@
    }

    /// The message shown.
    pub fn message(&self) -> (r: &String)
        ensures
            r@ == self.spec_message(),
    {
        &self.message
    }

    /// The database file could not be opened.
    pub fn on_open_failed(&mut self, error: &str)
        ensures
            final(self).spec_message() == "Failed to open database: "@ + error@,
    {
        let mut s = String::new();
        push_text(&mut s, "Failed to open database: ");
        push_text(&mut s, error);
        self.message = s;
    }

    /// A load finished: with `Ok`, or with the text of its error.
    pub fn on_load_finished(&mut self, kind: CsvKind, outcome: Result<(), &str>)
        ensures
            final(self).spec_message() == (match outcome {
                Ok(()) => kind.spec_name() + " CSV loaded successfully"@,
                Err(e) => "Failed to load "@ + kind.spec_name() + " CSV: "@ + e@,
            }),
    {
        let mut s = String::new();
        match outcome {
            Ok(()) => {
                push_text(&mut s, kind.name());
                push_text(&mut s, " CSV loaded successfully");
            },
            Err(e) => {
                push_text(&mut s, "Failed to load ");
                push_text(&mut s, kind.name());
                push_text(&mut s, " CSV: ");
                push_text(&mut s, e);
            },
        }
        self.message = s;
    }
}

} // verus!
