use vstd::prelude::*;

verus! {

/// Names of the assembler macros used to declare functions, jumptable labels and data.
#[derive(Clone, PartialEq, Eq, Hash, Debug)]
pub struct MacroLabels {
    pub func: String,
    pub alt_func: String,
    pub func_end: Option<String>,
    pub jtbl_label: String,
    pub ehtbl_label: String,
    pub data: String,
    pub data_end: Option<String>,
}

fn opt_as_str(s: &Option<String>) -> (r: Option<&str>)
    ensures
        s.is_none() ==> r.is_none(),
        s.is_some() ==> r.is_some() && r.unwrap()@ == s.unwrap()@,
{
    match s {
        Some(x) => Some(x.as_str()),
        None => None,
    }
}

impl MacroLabels {
    /// The default macro names: `glabel`, `alabel`, `jlabel`, `ehlabel` and `dlabel`.
    pub fn new() -> (r: Self)
        ensures
            r.func@ == "glabel"@,
            r.alt_func@ == "alabel"@,
            r.func_end.is_none(),
            r.jtbl_label@ == "jlabel"@,
            r.ehtbl_label@ == "ehlabel"@,
            r.data@ == "dlabel"@,
            r.data_end.is_none(),
    {
        MacroLabels {
            func: "glabel".to_owned(),
            alt_func: "alabel".to_owned(),
            func_end: None,
            jtbl_label: "jlabel".to_owned(),
            ehtbl_label: "ehlabel".to_owned(),
            data: "dlabel".to_owned(),
            data_end: None,
        }
    }

    pub fn func(&self) -> (r: &str)
        ensures
            r@ == self.func@,
    {
        self.func.as_str()
    }

    pub fn alt_func(&self) -> (r: &str)
        ensures
            r@ == self.alt_func@,
    {
        self.alt_func.as_str()
    }

    pub fn func_end(&self) -> (r: Option<&str>)
        ensures
            self.func_end.is_none() ==> r.is_none(),
            self.func_end.is_some() ==> r.is_some() && r.unwrap()@ == self.func_end.unwrap()@,
    {
        opt_as_str(&self.func_end)
    }

    pub fn jtbl_label(&self) -> (r: &str)
        ensures
            r@ == self.jtbl_label@,
    {
        self.jtbl_label.as_str()
    }

    pub fn ehtbl_label(&self) -> (r: &str)
        ensures
            r@ == self.ehtbl_label@,
    {
        self.ehtbl_label.as_str()
    }

    pub fn data(&self) -> (r: &str)
        ensures
            r@ == self.data@,
    {
        self.data.as_str()
    }

    pub fn data_end(&self) -> (r: Option<&str>)
        ensures
            self.data_end.is_none() ==> r.is_none(),
            self.data_end.is_some() ==> r.is_some() && r.unwrap()@ == self.data_end.unwrap()@,
    {
        opt_as_str(&self.data_end)
    }
}

} // verus!
