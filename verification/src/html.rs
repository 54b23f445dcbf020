//! Styled content that a markup parser made of a message: runs of text with
//! their styles and line breaks between them. Where the message is a reply,
//! the part that quotes the message replied to is kept apart from the rest.

use crate::printer::lemma_broken_tidy;
use crate::printer::lemma_finished_fits;
use crate::printer::lemma_fresh_tidy;
use crate::printer::lemma_with_str_keeps_width;
use crate::printer::lemma_with_str_tidy;
use crate::printer::line_fits;
use crate::printer::PrinterView;
use crate::printer::TextPrinter;
use crate::style::Style;
use crate::style::Text;
use crate::style::TextView;
use vstd::prelude::*;

verus! {

/// One piece of styled content.
#[derive(Clone, Debug, PartialEq, Eq)]
pub enum StyleTreeNode {
    /// A run of text in one style.
    Text { text: String, style: Style },
    /// The end of a line.
    Break,
}

/// The styled content of a message.
#[derive(Clone, Debug, PartialEq, Eq)]
pub struct StyleTree {
    /// The quotation of the message that this one replies to.
    pub reply: Vec<StyleTreeNode>,
    /// The message itself.
    pub body: Vec<StyleTreeNode>,
}

/// The printer after the pieces `nodes`, one after the other.
pub open spec fn printed(p: PrinterView, nodes: Seq<StyleTreeNode>) -> PrinterView
    decreases nodes.len(),
{
    if nodes.len() == 0 {
        p
    } else {
        let q = printed(p, nodes.drop_last());
        match nodes.last() {
            StyleTreeNode::Text { text, style } => q.with_str(text@, style),
            StyleTreeNode::Break => q.broken(),
        }
    }
}

fn print_nodes(printer: &mut TextPrinter, nodes: &Vec<StyleTreeNode>)
    ensures
        final(printer)@ == printed(old(printer)@, nodes@),
{
    let mut i: usize = 0;
    assert(nodes@.take(0) =~= Seq::<StyleTreeNode>::empty());
    while i < nodes.len()
        invariant
            i <= nodes@.len(),
            printer@ == printed(old(printer)@, nodes@.take(i as int)),
        decreases nodes@.len() - i,
    {
        assert(nodes@.take(i + 1).drop_last() =~= nodes@.take(i as int));
        assert(nodes@.take(i + 1).last() == nodes@[i as int]);
        match &nodes[i] {
            StyleTreeNode::Text { text, style } => {
                printer.push_str(text.as_str(), *style);
            },
            StyleTreeNode::Break => {
                printer.push_break();
            },
        }
        i = i + 1;
    }
    assert(nodes@.take(i as int) =~= nodes@);
}

impl StyleTree {
    /// The lines of this content at `width` columns over the style `style`:
    /// the quotation first, unless it is hidden, then the message.
    pub open spec fn rendered(self, width: usize, style: Style, hide_reply: bool) -> TextView {
        let p = PrinterView::fresh(width, style, hide_reply);
        let q = if hide_reply {
            p
        } else {
            printed(p, self.reply@)
        };
        printed(q, self.body@).finished()
    }

    /// Lays the content out on lines of `width` columns.
    pub fn to_text(&self, width: usize, style: Style, hide_reply: bool) -> (text: Text)
        ensures
            text@ == self.rendered(width, style, hide_reply),
    {
        let mut printer = TextPrinter::new(width, style, hide_reply);
        if !hide_reply {
            print_nodes(&mut printer, &self.reply);
        }
        print_nodes(&mut printer, &self.body);
        printer.finish()
    }
}

/// Pieces of styled content keep a tidy printer tidy.
pub proof fn lemma_printed_tidy(p: PrinterView, nodes: Seq<StyleTreeNode>)
    requires
        p.tidy(),
    ensures
        printed(p, nodes).tidy(),
        printed(p, nodes).width == p.width,
        printed(p, nodes).base_style == p.base_style,
    decreases nodes.len(),
{
    if nodes.len() > 0 {
        let q = printed(p, nodes.drop_last());
        lemma_printed_tidy(p, nodes.drop_last());
        match nodes.last() {
            StyleTreeNode::Text { text, style } => {
                lemma_with_str_tidy(q, text@, style);
                lemma_with_str_keeps_width(q, text@, style);
            },
            StyleTreeNode::Break => {
                lemma_broken_tidy(q);
            },
        }
    }
}

/// Every line of rendered styled content fits: its text takes no more
/// columns than the width, or one fragment takes them all, and padding makes
/// up for what the text leaves of the width.
pub proof fn lemma_rendered_fits(tree: StyleTree, width: usize, style: Style, hide_reply: bool)
    ensures
        forall|i: int|
            0 <= i < tree.rendered(width, style, hide_reply).len() ==> line_fits(
                #[trigger] tree.rendered(width, style, hide_reply)[i],
                width,
                style,
            ),
{
    let p = PrinterView::fresh(width, style, hide_reply);
    lemma_fresh_tidy(width, style, hide_reply);
    let q = if hide_reply {
        p
    } else {
        printed(p, tree.reply@)
    };
    if !hide_reply {
        lemma_printed_tidy(p, tree.reply@);
    }
    lemma_printed_tidy(q, tree.body@);
    lemma_finished_fits(printed(q, tree.body@));
}

} // verus!
