//! Store-change notifications and their text encoding.
use vstd::prelude::*;
use vstd::string::StringExecFns;

verus! {

/// The metadata kept for one saved view.
#[derive(Clone, Debug)]
pub struct SavedUiViewData {
    pub title: String,
    /// Milliseconds since the Unix epoch.
    pub date_added: u64,
    pub added_by: String,
}

/// The abstract content of a saved view: title, date added, creator.
pub type ViewRecord = (Seq<char>, u64, Seq<char>);

impl View for SavedUiViewData {
    type V = ViewRecord;

    open spec fn view(&self) -> ViewRecord {
        (self.title@, self.date_added, self.added_by@)
    }
}

/// A change announced to subscribers.
#[derive(Clone, Debug)]
pub enum Action {
    Insert { token: String, data: SavedUiViewData },
    Remove { token: String },
    CanWrite(bool),
    Description(String),
}

/// Abstract notifications, with tokens and texts as character sequences.
pub enum ActionView {
    Insert { token: Seq<char>, data: ViewRecord },
    Remove { token: Seq<char> },
    CanWrite(bool),
    Description(Seq<char>),
}

impl View for Action {
    type V = ActionView;

    open spec fn view(&self) -> ActionView {
        match self {
            Action::Insert { token, data } => ActionView::Insert { token: token@, data: data@ },
            Action::Remove { token } => ActionView::Remove { token: token@ },
            Action::CanWrite(b) => ActionView::CanWrite(*b),
            Action::Description(s) => ActionView::Description(s@),
        }
    }
}

pub open spec fn digit_char(d: nat) -> char {
    if d == 0 { '0' }
    else if d == 1 { '1' }
    else if d == 2 { '2' }
    else if d == 3 { '3' }
    else if d == 4 { '4' }
    else if d == 5 { '5' }
    else if d == 6 { '6' }
    else if d == 7 { '7' }
    else if d == 8 { '8' }
    else { '9' }
}

/// The decimal digits of `n`, without leading zeros.
pub open spec fn decimal(n: nat) -> Seq<char>
    decreases n,
{
    if n < 10 {
        seq![digit_char(n)]
    } else {
        decimal(n / 10).push(digit_char(n % 10))
    }
}

pub open spec fn data_json(d: ViewRecord) -> Seq<char> {
    "{\"title\":\""@ + d.0 + "\",\"date_added\": \""@ + decimal(d.1 as nat) + "\",\"added_by\":\""@
        + d.2 + "\"}"@
}

pub open spec fn action_json(a: ActionView) -> Seq<char> {
    match a {
        ActionView::Insert { token, data } => "{\"insert\":{\"token\":\""@ + token + "\",\"data\":"@
            + data_json(data) + " } }"@,
        ActionView::Remove { token } => "{\"remove\":{\"token\":\""@ + token + "\"}}"@,
        ActionView::CanWrite(b) => "{\"canWrite\":"@ + (if b { "true"@ } else { "false"@ }) + "}"@,
        ActionView::Description(s) => "{\"description\":\""@ + s + "\"}"@,
    }
}

fn digit_str(d: u64) -> (r: &'static str)
    requires
        d < 10,
    ensures
        r@ == seq![digit_char(d as nat)],
{
    proof {
        reveal_strlit("0");
        reveal_strlit("1");
        reveal_strlit("2");
        reveal_strlit("3");
        reveal_strlit("4");
        reveal_strlit("5");
        reveal_strlit("6");
        reveal_strlit("7");
        reveal_strlit("8");
        reveal_strlit("9");
    }
    if d == 0 { "0" }
    else if d == 1 { "1" }
    else if d == 2 { "2" }
    else if d == 3 { "3" }
    else if d == 4 { "4" }
    else if d == 5 { "5" }
    else if d == 6 { "6" }
    else if d == 7 { "7" }
    else if d == 8 { "8" }
    else { "9" }
}

/// Writes `n` in decimal.
pub fn decimal_string(n: u64) -> (r: String)
    ensures
        r@ == decimal(n as nat),
    decreases n,
{
    if n < 10 {
        String::from_str(digit_str(n))
    } else {
        let s = decimal_string(n / 10);
        let r = s.concat(digit_str(n % 10));
        assert(r@ =~= decimal(n as nat));
        r
    }
}

impl SavedUiViewData {
    /// A copy with the same fields.
    pub fn duplicate(&self) -> (r: SavedUiViewData)
        ensures
            r@ == self@,
    {
        SavedUiViewData {
            title: self.title.clone(),
            date_added: self.date_added,
            added_by: self.added_by.clone(),
        }
    }

    /// The record as a JSON object.
    pub fn to_json(&self) -> (r: String)
        ensures
            r@ == data_json(self@),
    {
        let mut r = String::from_str("{\"title\":\"");
        r.append(self.title.as_str());
        r.append("\",\"date_added\": \"");
        r.append(decimal_string(self.date_added).as_str());
        r.append("\",\"added_by\":\"");
        r.append(self.added_by.as_str());
        r.append("\"}");
        r
    }
}

impl Action {
    /// The notification as a JSON object with one top-level tag.
    pub fn to_json(&self) -> (r: String)
        ensures
            r@ == action_json(self@),
    {
        match self {
            Action::Insert { token, data } => {
                let mut r = String::from_str("{\"insert\":{\"token\":\"");
                r.append(token.as_str());
                r.append("\",\"data\":");
                r.append(data.to_json().as_str());
                r.append(" } }");
                r
            },
            Action::Remove { token } => {
                let mut r = String::from_str("{\"remove\":{\"token\":\"");
                r.append(token.as_str());
                r.append("\"}}");
                r
            },
            Action::CanWrite(b) => {
                let mut r = String::from_str("{\"canWrite\":");
                if *b {
                    r.append("true");
                } else {
                    r.append("false");
                }
                r.append("}");
                r
            },
            Action::Description(s) => {
                let mut r = String::from_str("{\"description\":\"");
                r.append(s.as_str());
                r.append("\"}");
                r
            },
        }
    }
}

} // verus!
