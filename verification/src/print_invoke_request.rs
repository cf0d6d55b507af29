//! Pretty-printing of an invocation request for the log: its id and a
//! summary of each input.
use vstd::prelude::*;

use crate::api::{InputSource, InvokeRequest};
use crate::text::{u64_to_dec, uid_hyphenated};
use crate::writer::Writer;

verus! {

/// Renders one request.
pub struct PrintWrapper<'a>(pub &'a InvokeRequest);

impl PrintWrapper<'_> {
    fn print_config(&self, w: &mut Writer)
        requires
            old(w).depth_spec() == 0,
        ensures
            final(w).depth_spec() == 0,
    {
        let g = w.begin("globals");
        let id = uid_hyphenated(&self.0.id);
        w.write_key_value("request-id", id.as_str());
        w.finish(g);
    }

    fn print_inputs(&self, w: &mut Writer)
        requires
            old(w).depth_spec() == 0,
        ensures
            final(w).depth_spec() == 0,
    {
        let g = w.begin("inputs");
        let n: usize = self.0.inputs.len();
        let mut k: usize = 0;
        while k < n
            invariant
                0 <= k <= n,
                n == self.0.inputs@.len(),
                w.depth_spec() == 1,
            decreases n - k,
        {
            let inp = &self.0.inputs[k];
            let gi = w.begin("input");
            w.write_key_value("file-id", inp.file_id.0.as_str());
            match &inp.source {
                InputSource::InlineString { data } => {
                    let mut line = u64_to_dec(data.as_str().unicode_len() as u64);
                    line.append(" bytes");
                    w.write_key_value("inline", line.as_str());
                },
                InputSource::InlineBase64 { data } => {
                    let mut line = u64_to_dec(data.as_str().unicode_len() as u64);
                    line.append(" base64 chars");
                    w.write_key_value("inline-base64", line.as_str());
                },
                InputSource::LocalFile { path } => {
                    w.write_key_value("local-path", path.as_str());
                },
            }
            w.finish(gi);
            k = k + 1;
        }
        w.finish(g);
    }

    /// The rendering of the request: its id and its inputs.
    pub fn print(&self) -> String {
        let mut w = Writer::new();
        self.print_config(&mut w);
        self.print_inputs(&mut w);
        w.into_inner()
    }
}

} // verus!
