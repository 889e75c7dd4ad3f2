use vstd::prelude::*;

use super::{Endian, GpConfig, MacroLabels};

verus! {

/// Settings shared by every section being disassembled.
#[derive(Clone, PartialEq, Eq, Hash, Debug)]
pub struct GlobalConfig {
    pub endian: Endian,
    pub gp_config: Option<GpConfig>,
    pub macro_labels: Option<MacroLabels>,
    pub emit_size_directive: bool,
}

impl GlobalConfig {
    pub fn endian(&self) -> (r: Endian)
        ensures
            r == self.endian,
    {
        self.endian
    }

    pub fn gp_config(&self) -> (r: Option<&GpConfig>)
        ensures
            self.gp_config.is_none() ==> r.is_none(),
            self.gp_config.is_some() ==> r.is_some() && *r.unwrap() == self.gp_config.unwrap(),
    {
        match &self.gp_config {
            Some(x) => Some(x),
            None => None,
        }
    }

    pub fn macro_labels(&self) -> (r: Option<&MacroLabels>)
        ensures
            self.macro_labels.is_none() ==> r.is_none(),
            self.macro_labels.is_some() ==> r.is_some() && *r.unwrap() == self.macro_labels.unwrap(),
    {
        match &self.macro_labels {
            Some(x) => Some(x),
            None => None,
        }
    }

    pub fn emit_size_directive(&self) -> (r: bool)
        ensures
            r == self.emit_size_directive,
    {
        self.emit_size_directive
    }
}

/// Incrementally assembles a [`GlobalConfig`].
#[derive(Clone, PartialEq, Eq, Hash, Debug)]
pub struct GlobalConfigBuilder {
    pub endian: Endian,
    pub gp_config: Option<GpConfig>,
    pub macro_labels: Option<MacroLabels>,
    pub emit_size_directive: bool,
}

impl GlobalConfigBuilder {
    /// No `$gp` configuration, the default label macros, and size directives on.
    pub fn new(endian: Endian) -> (r: Self)
        ensures
            r.endian == endian,
            r.gp_config.is_none(),
            r.macro_labels.is_some(),
            r.macro_labels.unwrap().func@ == "glabel"@,
            r.macro_labels.unwrap().alt_func@ == "alabel"@,
            r.macro_labels.unwrap().func_end.is_none(),
            r.macro_labels.unwrap().jtbl_label@ == "jlabel"@,
            r.macro_labels.unwrap().ehtbl_label@ == "ehlabel"@,
            r.macro_labels.unwrap().data@ == "dlabel"@,
            r.macro_labels.unwrap().data_end.is_none(),
            r.emit_size_directive,
    {
        GlobalConfigBuilder {
            endian,
            gp_config: None,
            macro_labels: Some(MacroLabels::new()),
            emit_size_directive: true,
        }
    }

    pub fn build(self) -> (r: GlobalConfig)
        ensures
            r.endian == self.endian,
            r.gp_config == self.gp_config,
            r.macro_labels == self.macro_labels,
            r.emit_size_directive == self.emit_size_directive,
    {
        GlobalConfig {
            endian: self.endian,
            gp_config: self.gp_config,
            macro_labels: self.macro_labels,
            emit_size_directive: self.emit_size_directive,
        }
    }

    pub fn endian(&self) -> (r: Endian)
        ensures
            r == self.endian,
    {
        self.endian
    }

    pub fn gp_config(&self) -> (r: Option<&GpConfig>)
        ensures
            self.gp_config.is_none() ==> r.is_none(),
            self.gp_config.is_some() ==> r.is_some() && *r.unwrap() == self.gp_config.unwrap(),
    {
        match &self.gp_config {
            Some(x) => Some(x),
            None => None,
        }
    }

    pub fn gp_config_mut(&mut self) -> (r: &mut Option<GpConfig>)
        ensures
            *r == old(self).gp_config,
            final(self).gp_config == *final(r),
            final(self).endian == old(self).endian,
            final(self).macro_labels == old(self).macro_labels,
            final(self).emit_size_directive == old(self).emit_size_directive,
    {
        &mut self.gp_config
    }

    pub fn with_gp_config(self, gp_config: Option<GpConfig>) -> (r: Self)
        ensures
            r == (GlobalConfigBuilder { gp_config, ..self }),
    {
        GlobalConfigBuilder { gp_config, ..self }
    }

    pub fn macro_labels(&self) -> (r: Option<&MacroLabels>)
        ensures
            self.macro_labels.is_none() ==> r.is_none(),
            self.macro_labels.is_some() ==> r.is_some() && *r.unwrap() == self.macro_labels.unwrap(),
    {
        match &self.macro_labels {
            Some(x) => Some(x),
            None => None,
        }
    }

    pub fn macro_labels_mut(&mut self) -> (r: &mut Option<MacroLabels>)
        ensures
            *r == old(self).macro_labels,
            final(self).macro_labels == *final(r),
            final(self).endian == old(self).endian,
            final(self).gp_config == old(self).gp_config,
            final(self).emit_size_directive == old(self).emit_size_directive,
    {
        &mut self.macro_labels
    }

    pub fn with_macro_labels(self, macro_labels: Option<MacroLabels>) -> (r: Self)
        ensures
            r == (GlobalConfigBuilder { macro_labels, ..self }),
    {
        GlobalConfigBuilder { macro_labels, ..self }
    }

    pub fn emit_size_directive(&self) -> (r: bool)
        ensures
            r == self.emit_size_directive,
    {
        self.emit_size_directive
    }

    pub fn emit_size_directive_mut(&mut self) -> (r: &mut bool)
        ensures
            *r == old(self).emit_size_directive,
            final(self).emit_size_directive == *final(r),
            final(self).endian == old(self).endian,
            final(self).gp_config == old(self).gp_config,
            final(self).macro_labels == old(self).macro_labels,
    {
        &mut self.emit_size_directive
    }

    pub fn with_emit_size_directive(self, emit_size_directive: bool) -> (r: Self)
        ensures
            r == (GlobalConfigBuilder { emit_size_directive, ..self }),
    {
        GlobalConfigBuilder { emit_size_directive, ..self }
    }
}

} // verus!
