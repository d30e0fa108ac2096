use crate::context::{inserted_all, StageContext};
use crate::entity::Entity;
use vstd::prelude::*;

verus! {

/// What `str::trim` makes of a text.
pub uninterp spec fn trimmed(s: Seq<char>) -> Seq<char>;

/// Relies on `str::trim`: the text without its leading and trailing white space.
#[verifier::external_body]
fn trim_to_string(s: &str) -> (r: String)
    ensures
        r@ == trimmed(s@),
{
    s.trim().to_string()
}

/// One line of the terminal's history.
pub enum HistoryItem {
    /// A command that was entered.
    Input(String),
    /// What a command printed.
    Output(String),
    /// Why a command failed.
    Error(String),
}

/// A command line that adds entities to the stage from a scene description.
pub struct Terminal {
    input: String,
    history: Vec<HistoryItem>,
}

impl Terminal {
    pub closed spec fn spec_input(&self) -> Seq<char> {
        self.input@
    }

    pub closed spec fn spec_history(&self) -> Seq<HistoryItem> {
        self.history@
    }

    /// A terminal with an empty input line and no history.
    pub fn new() -> (r: Terminal)
        ensures
            r.spec_input() == Seq::<char>::empty(),
            r.spec_history() == Seq::<HistoryItem>::empty(),
    {
        Terminal { input: String::new(), history: Vec::new() }
    }

    /// The text being typed.
    pub fn input(&self) -> (r: &str)
        ensures
            r@ == self.spec_input(),
    {
        self.input.as_str()
    }

    /// Replaces the text being typed.
    pub fn set_input(&mut self, text: String)
        ensures
            final(self).spec_input() == text@,
            final(self).spec_history() == old(self).spec_history(),
    {
        self.input = text;
    }

    /// The history, oldest first.
    pub fn history(&self) -> (r: &Vec<HistoryItem>)
        ensures
            r@ == self.spec_history(),
    {
        &self.history
    }

    /// Submits the input line, given what it decoded to: the trimmed line goes to the
    /// history; decoded entities are inserted into `stage` in order, and a decoding
    /// error is recorded after the line. The input line is then cleared.
    pub fn submit<P: Copy>(&mut self, decoded: Result<Vec<Entity<P>>, String>, stage: &mut StageContext<P>)
        requires
            old(stage).wf(),
        ensures
            final(stage).wf(),
            final(self).spec_input() == Seq::<char>::empty(),
            final(self).spec_history().len() == old(self).spec_history().len() + if decoded is Ok { 1int } else { 2int },
            final(self).spec_history().subrange(0, old(self).spec_history().len() as int) == old(self).spec_history(),
            final(self).spec_history()[old(self).spec_history().len() as int] is Input,
            final(self).spec_history()[old(self).spec_history().len() as int]->Input_0@ == trimmed(old(self).spec_input()),
            match decoded {
                Ok(doc) => final(stage)@ == inserted_all(old(stage)@, doc@),
                Err(msg) => {
                    &&& final(stage)@ == old(stage)@
                    &&& final(self).spec_history().last() is Error
                    &&& final(self).spec_history().last()->Error_0@ == msg@
                },
            },
    {
        let line = trim_to_string(self.input.as_str());
        self.history.push(HistoryItem::Input(line));
        match decoded {
            Ok(doc) => {
                let mut rest = doc;
                while rest.len() > 0
                    invariant
                        stage.wf(),
                        inserted_all(stage@, rest@) == inserted_all(old(stage)@, doc@),
                    decreases rest.len(),
                {
                    let ghost before = rest@;
                    let entity = rest.remove(0);
                    proof {
                        assert(rest@ =~= before.drop_first());
                    }
                    stage.insert(entity);
                }
            },
            Err(msg) => {
                self.history.push(HistoryItem::Error(msg));
            },
        }
        self.input = String::new();
    }
}

} // verus!
