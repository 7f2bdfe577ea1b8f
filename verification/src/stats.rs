//! The totals of a walk over an index and the text of their report.

use vstd::prelude::*;
use vstd::string::StringExecFns;
use crate::layout::BLOCK_SIZE;
use crate::page::OffsetNumber;
use crate::text::{decimal, push_decimal};

verus! {

/// Totals over the pages that a walk has visited.
#[derive(Debug, Clone, Copy, PartialEq, Eq, Structural)]
pub struct Stats {
    /// Depth of the deepest page visited; the root is at depth 0.
    pub level: usize,
    /// Number of pages visited.
    pub num_pages: usize,
    /// Number of leaf pages among them.
    pub num_leaf_pages: usize,
    /// Number of slots of the leaf pages.
    pub num_leaf_tuple: usize,
    /// Number of slots of all pages.
    pub num_tuple: usize,
    /// Number of entries of internal pages that are placeholders.
    pub num_invalid_tuple: usize,
    /// Bytes of all pages that are not free.
    pub tuple_size: u64,
    /// Bytes of the leaf pages that are not free.
    pub leaf_tuple_size: u64,
    /// Bytes of all pages: their number times the capacity of a page.
    pub total_size: u64,
}

impl Default for Stats {
    fn default() -> (s: Stats)
        ensures
            s == Stats::empty(),
    {
        Stats {
            level: 0,
            num_pages: 0,
            num_leaf_pages: 0,
            num_tuple: 0,
            num_invalid_tuple: 0,
            num_leaf_tuple: 0,
            tuple_size: 0,
            leaf_tuple_size: 0,
            total_size: 0,
        }
    }
}

/// One line of the report: a label, a number and what follows it.
pub open spec fn report_line(label: Seq<char>, n: nat, tail: Seq<char>) -> Seq<char> {
    label + decimal(n) + tail
}

/// Appends one line of the report to `out`.
pub fn push_report_line(out: &mut String, label: &str, n: u128, tail: &str)
    ensures
        final(out)@ == old(out)@ + report_line(label@, n as nat, tail@),
{
    let ghost before = out@;
    out.append(label);
    push_decimal(out, n);
    out.append(tail);
    assert(out@ =~= before + report_line(label@, n as nat, tail@));
}

impl Stats {
    /// The totals of a walk that has visited nothing.
    pub open spec fn empty() -> Stats {
        Stats {
            level: 0,
            num_pages: 0,
            num_leaf_pages: 0,
            num_tuple: 0,
            num_invalid_tuple: 0,
            num_leaf_tuple: 0,
            tuple_size: 0,
            leaf_tuple_size: 0,
            total_size: 0,
        }
    }

    /// The totals after one more page, at depth `level`, with `max_offset`
    /// slots and `free_space` free bytes; `None` where a total would not fit
    /// its counter.
    pub open spec fn spec_count_page(
        self,
        level: usize,
        max_offset: OffsetNumber,
        free_space: usize,
        is_leaf: bool,
    ) -> Option<Stats> {
        let used = BLOCK_SIZE as int - free_space as int;
        if self.num_pages + 1 > usize::MAX || self.tuple_size + used > u64::MAX || self.total_size
            + BLOCK_SIZE as int > u64::MAX || self.num_tuple + max_offset > usize::MAX {
            None
        } else if is_leaf && (self.num_leaf_pages + 1 > usize::MAX || self.leaf_tuple_size + used
            > u64::MAX || self.num_leaf_tuple + max_offset > usize::MAX) {
            None
        } else {
            Some(
                Stats {
                    level: if level > self.level {
                        level
                    } else {
                        self.level
                    },
                    num_pages: (self.num_pages + 1) as usize,
                    num_leaf_pages: if is_leaf {
                        (self.num_leaf_pages + 1) as usize
                    } else {
                        self.num_leaf_pages
                    },
                    num_leaf_tuple: if is_leaf {
                        (self.num_leaf_tuple + max_offset) as usize
                    } else {
                        self.num_leaf_tuple
                    },
                    num_tuple: (self.num_tuple + max_offset) as usize,
                    num_invalid_tuple: self.num_invalid_tuple,
                    tuple_size: (self.tuple_size + used) as u64,
                    leaf_tuple_size: if is_leaf {
                        (self.leaf_tuple_size + used) as u64
                    } else {
                        self.leaf_tuple_size
                    },
                    total_size: (self.total_size + BLOCK_SIZE as int) as u64,
                },
            )
        }
    }

    /// The totals after one more placeholder entry; `None` where their
    /// number would not fit its counter.
    pub open spec fn spec_count_invalid(self) -> Option<Stats> {
        if self.num_invalid_tuple + 1 > usize::MAX {
            None
        } else {
            Some(Stats { num_invalid_tuple: (self.num_invalid_tuple + 1) as usize, ..self })
        }
    }

    /// The text of the report.
    pub open spec fn report(self) -> Seq<char> {
        report_line("Number of levels:          "@, self.level as nat + 1, "\n"@) + report_line(
            "Number of pages:           "@,
            self.num_pages as nat,
            "\n"@,
        ) + report_line("Number of leaf pages:      "@, self.num_leaf_pages as nat, "\n"@)
            + report_line("Number of tuples:          "@, self.num_tuple as nat, "\n"@)
            + report_line("Number of invalid tuples:  "@, self.num_invalid_tuple as nat, "\n"@)
            + report_line("Number of leaf tuples:     "@, self.num_leaf_tuple as nat, "\n"@)
            + report_line("Total size of tuples:      "@, self.tuple_size as nat, " bytes\n"@)
            + report_line("Total size of leaf tuples: "@, self.leaf_tuple_size as nat, " bytes\n"@)
            + report_line("Total size of index:       "@, self.total_size as nat, " bytes\n"@)
    }

    /// Counts one more page, at depth `level`, with `max_offset` slots and
    /// `free_space` free bytes. `None` where a total would not fit its
    /// counter.
    pub fn count_page(
        self,
        level: usize,
        max_offset: OffsetNumber,
        free_space: usize,
        is_leaf: bool,
    ) -> (r: Option<Stats>)
        requires
            free_space <= BLOCK_SIZE,
        ensures
            r == self.spec_count_page(level, max_offset, free_space, is_leaf),
    {
        let used: u64 = (BLOCK_SIZE - free_space) as u64;
        let slots: usize = max_offset as usize;
        let num_pages = self.num_pages.checked_add(1)?;
        let tuple_size = self.tuple_size.checked_add(used)?;
        let total_size = self.total_size.checked_add(BLOCK_SIZE as u64)?;
        let num_tuple = self.num_tuple.checked_add(slots)?;
        let mut stats = Stats {
            level: if level > self.level {
                level
            } else {
                self.level
            },
            num_pages,
            num_leaf_pages: self.num_leaf_pages,
            num_leaf_tuple: self.num_leaf_tuple,
            num_tuple,
            num_invalid_tuple: self.num_invalid_tuple,
            tuple_size,
            leaf_tuple_size: self.leaf_tuple_size,
            total_size,
        };
        if is_leaf {
            stats.num_leaf_pages = self.num_leaf_pages.checked_add(1)?;
            stats.leaf_tuple_size = self.leaf_tuple_size.checked_add(used)?;
            stats.num_leaf_tuple = self.num_leaf_tuple.checked_add(slots)?;
        }
        Some(stats)
    }

    /// Counts one more placeholder entry. `None` where their number would
    /// not fit its counter.
    pub fn count_invalid(self) -> (r: Option<Stats>)
        ensures
            r == self.spec_count_invalid(),
    {
        let num_invalid_tuple = self.num_invalid_tuple.checked_add(1)?;
        Some(Stats { num_invalid_tuple, ..self })
    }

    /// The report: nine labelled lines in a fixed order, the number of levels
    /// being one more than the depth of the deepest page.
    pub fn to_string(&self) -> (s: String)
        ensures
            s@ == self.report(),
    {
        let mut out = String::new();
        let ghost mut acc = Seq::<char>::empty();
        let ghost nothing = Seq::<char>::empty();
        assert(out@ =~= nothing + acc);
        push_report_line(&mut out, "Number of levels:          ", self.level as u128 + 1, "\n");
        proof {
            let line = report_line("Number of levels:          "@, self.level as nat + 1, "\n"@);
            assert(out@ =~= line);
            acc = line;
        }
        push_report_line(&mut out, "Number of pages:           ", self.num_pages as u128, "\n");
        proof {
            acc = acc + report_line("Number of pages:           "@, self.num_pages as nat, "\n"@);
        }
        push_report_line(
            &mut out,
            "Number of leaf pages:      ",
            self.num_leaf_pages as u128,
            "\n",
        );
        proof {
            acc = acc + report_line(
                "Number of leaf pages:      "@,
                self.num_leaf_pages as nat,
                "\n"@,
            );
        }
        push_report_line(&mut out, "Number of tuples:          ", self.num_tuple as u128, "\n");
        proof {
            acc = acc + report_line("Number of tuples:          "@, self.num_tuple as nat, "\n"@);
        }
        push_report_line(
            &mut out,
            "Number of invalid tuples:  ",
            self.num_invalid_tuple as u128,
            "\n",
        );
        proof {
            acc = acc + report_line(
                "Number of invalid tuples:  "@,
                self.num_invalid_tuple as nat,
                "\n"@,
            );
        }
        push_report_line(
            &mut out,
            "Number of leaf tuples:     ",
            self.num_leaf_tuple as u128,
            "\n",
        );
        proof {
            acc = acc + report_line(
                "Number of leaf tuples:     "@,
                self.num_leaf_tuple as nat,
                "\n"@,
            );
        }
        push_report_line(
            &mut out,
            "Total size of tuples:      ",
            self.tuple_size as u128,
            " bytes\n",
        );
        proof {
            acc = acc + report_line(
                "Total size of tuples:      "@,
                self.tuple_size as nat,
                " bytes\n"@,
            );
        }
        push_report_line(
            &mut out,
            "Total size of leaf tuples: ",
            self.leaf_tuple_size as u128,
            " bytes\n",
        );
        proof {
            acc = acc + report_line(
                "Total size of leaf tuples: "@,
                self.leaf_tuple_size as nat,
                " bytes\n"@,
            );
        }
        push_report_line(
            &mut out,
            "Total size of index:       ",
            self.total_size as u128,
            " bytes\n",
        );
        proof {
            acc = acc + report_line(
                "Total size of index:       "@,
                self.total_size as nat,
                " bytes\n"@,
            );
        }
        assert(out@ == acc);
        out
    }
}

} // verus!
