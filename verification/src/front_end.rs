//! How the stages fit together: what holds of a text that is scanned and
//! then parsed.

use vstd::prelude::*;
use vstd::string::StringSliceAdditionalSpecFns;
use crate::parser::ast::BoxedASTNode;
use crate::parser::grammar::{ends, lemma_ends_before, program};
use crate::parser::{parsed, ParserError};
use crate::scanner::rules::{lemma_scan_ends, scan_source};
use crate::scanner::{finish, scanned, token_views, ScannerError, ScannerView, Token, TokenView};

verus! {

/// A scanner that has read nothing yet comes to the scan of its source.
pub proof fn lemma_fresh_scan(source: Seq<u8>)
    ensures
        finish(ScannerView { source, tokens: Seq::empty(), start: 0, current: 0, line: 0 })
            == scan_source(source),
{
    if let Ok(rest) = scan_source(source) {
        assert(Seq::<TokenView>::empty() + rest =~= rest);
    }
}

/// The tokens of a scan can be handed to the parser: they hold an end
/// token.
pub proof fn lemma_scanned_can_be_parsed(source: Seq<u8>)
    ensures
        scan_source(source) matches Ok(tokens) ==> ends(tokens, 0),
{
    lemma_scan_ends(source, 0, 0);
    if let Ok(tokens) = scan_source(source) {
        lemma_ends_before(tokens, 0, (tokens.len() - 1) as nat);
    }
}

/// Scanning and parsing the same text twice gives the same tokens and the
/// same trees: whatever two runs returned, their models are equal, node
/// for node and token for token.
pub proof fn lemma_same_text_same_trees(
    source: &str,
    first_tokens: Vec<Token>,
    second_tokens: Vec<Token>,
    first: Result<Vec<BoxedASTNode>, ParserError>,
    second: Result<Vec<BoxedASTNode>, ParserError>,
)
    requires
        scanned(Ok::<Vec<Token>, ScannerError>(first_tokens)) == scan_source(source.spec_bytes()),
        scanned(Ok::<Vec<Token>, ScannerError>(second_tokens)) == scan_source(source.spec_bytes()),
        parsed(first) == program(token_views(first_tokens@), 0),
        parsed(second) == program(token_views(second_tokens@), 0),
    ensures
        token_views(first_tokens@) == token_views(second_tokens@),
        parsed(first) == parsed(second),
{
}

/// Two scans of the same text fail alike or succeed alike.
pub proof fn lemma_same_text_same_scan(
    source: &str,
    first: Result<Vec<Token>, ScannerError>,
    second: Result<Vec<Token>, ScannerError>,
)
    requires
        scanned(first) == scan_source(source.spec_bytes()),
        scanned(second) == scan_source(source.spec_bytes()),
    ensures
        scanned(first) == scanned(second),
        first is Ok <==> second is Ok,
{
}

} // verus!
