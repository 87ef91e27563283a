//! The audit log viewer: the CSV export of audit entries.

use vstd::prelude::*;

use crate::report::{csv_escape, csv_field};
use crate::text::push_str;

verus! {

/// One audit entry as the viewer shows it.
#[derive(Debug, Clone)]
pub struct AuditRow {
    pub occurred_at: String,
    pub action: String,
    pub target: String,
    pub status: String,
    pub details: String,
}

/// The CSV record of one entry.
pub open spec fn audit_record(r: AuditRow) -> Seq<char> {
    csv_field(r.occurred_at@) + ","@ + csv_field(r.action@) + ","@ + csv_field(r.target@) + ","@
        + csv_field(r.status@) + ","@ + csv_field(r.details@) + "\n"@
}

/// The CSV records of a list of entries, in order.
pub open spec fn audit_records(rs: Seq<AuditRow>) -> Seq<char>
    decreases rs.len(),
{
    if rs.len() == 0 {
        Seq::empty()
    } else {
        audit_records(rs.drop_last()) + audit_record(rs.last())
    }
}

/// The CSV export of entries: a header line, then one record per entry;
/// a field is quoted when it holds a comma, a quote or a line break.
pub open spec fn audit_csv(rs: Seq<AuditRow>) -> Seq<char> {
    "occurred_at,action,target,status,details\n"@ + audit_records(rs)
}

/// Appends a field, quoted where needed, and a separator.
fn push_field(out: &mut String, value: &str, sep: &str)
    ensures
        final(out)@ == old(out)@ + csv_field(value@) + sep@,
{
    let f = csv_escape(value);
    push_str(out, f.as_str());
    push_str(out, sep);
}

/// The CSV export of `rows`.
pub fn csv_export(rows: &[AuditRow]) -> (r: String)
    ensures
        r@ == audit_csv(rows@),
{
    let mut out = "occurred_at,action,target,status,details\n".to_owned();
    let mut i: usize = 0;
    proof {
        assert(rows@.take(0) =~= Seq::<AuditRow>::empty());
    }
    while i < rows.len()
        invariant
            i <= rows.len(),
            out@ == audit_csv(rows@.take(i as int)),
        decreases rows.len() - i,
    {
        let r = &rows[i];
        let ghost before = out@;
        push_field(&mut out, r.occurred_at.as_str(), ",");
        push_field(&mut out, r.action.as_str(), ",");
        push_field(&mut out, r.target.as_str(), ",");
        push_field(&mut out, r.status.as_str(), ",");
        push_field(&mut out, r.details.as_str(), "\n");
        proof {
            assert(rows@.take(i + 1).drop_last() =~= rows@.take(i as int));
            assert(out@ =~= before + audit_record(rows@[i as int]));
        }
        i = i + 1;
    }
    proof {
        assert(rows@.take(rows.len() as int) =~= rows@);
    }
    out
}

} // verus!
