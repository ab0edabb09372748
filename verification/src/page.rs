//! The stylesheet and scripts of a report page.
//!
//! A page shows the target position on a board drawn by a script, with an
//! image for the board and one for each piece. The images are SVG documents;
//! the stylesheet embeds them as data URLs.

use vstd::prelude::*;
use vstd::string::StringExecFns;

verus! {

/// The scripts and images that a report page embeds.
pub struct Assets {
    /// The script that draws the board.
    pub chessground: String,
    /// The script that draws arrows on the board.
    pub arrows: String,
    /// The image of the board.
    pub board: String,
    /// The image of the white pawn.
    pub white_pawn: String,
    /// The image of the white bishop.
    pub white_bishop: String,
    /// The image of the white knight.
    pub white_knight: String,
    /// The image of the white rook.
    pub white_rook: String,
    /// The image of the white queen.
    pub white_queen: String,
    /// The image of the white king.
    pub white_king: String,
    /// The image of the black pawn.
    pub black_pawn: String,
    /// The image of the black bishop.
    pub black_bishop: String,
    /// The image of the black knight.
    pub black_knight: String,
    /// The image of the black rook.
    pub black_rook: String,
    /// The image of the black queen.
    pub black_queen: String,
    /// The image of the black king.
    pub black_king: String,
}

/// The rules of the stylesheet that do not depend on the images.
pub const BASE_STYLE: &'static str = "
table.stats { border-collapse: collapse; }
table.stats td {
    border: 1px solid black;
    vertical-align: top;
}
table.counts td {
    border-width: 0;
}
.cg-board-wrap {
  width: 320px;
  height: 320px;
  position: relative;
  display: block;
  margin: 20px;
}
.cg-board {
  position: absolute;
  top: 0;
  left: 0;
  width: 100%;
  height: 100%;
  -webkit-user-select: none;
  -moz-user-select: none;
  -ms-user-select: none;
  user-select: none;
  line-height: 0;
  background-size: cover;
  cursor: pointer;
}
.cg-board square {
  position: absolute;
  top: 0;
  left: 0;
  width: 12.5%;
  height: 12.5%;
  pointer-events: none;
}
.cg-board square.move-dest {
  background: radial-gradient(rgba(20, 85, 30, 0.5) 22%, #208530 0, rgba(0, 0, 0, 0.3) 0, rgba(0, 0, 0, 0) 0);
  pointer-events: auto;
}
.cg-board square.premove-dest {
  background: radial-gradient(rgba(20, 30, 85, 0.5) 22%, #203085 0, rgba(0, 0, 0, 0.3) 0, rgba(0, 0, 0, 0) 0);
}
.cg-board square.oc.move-dest {
  background: radial-gradient(transparent 0%, transparent 80%, rgba(20, 85, 0, 0.3) 80%);
}
.cg-board square.oc.premove-dest {
  background: radial-gradient(transparent 0%, transparent 80%, rgba(20, 30, 85, 0.2) 80%);
}
.cg-board square.move-dest:hover {
  background: rgba(20, 85, 30, 0.3);
}
.cg-board square.premove-dest:hover {
  background: rgba(20, 30, 85, 0.2);
}
.cg-board square.last-move {
  will-change: transform;
  background-color: rgba(155, 199, 0, 0.41);
}
.cg-board square.selected {
  background-color: rgba(20, 85, 30, 0.5);
}
.cg-board square.check {
  background: radial-gradient(ellipse at center, rgba(255, 0, 0, 1) 0%, rgba(231, 0, 0, 1) 25%, rgba(169, 0, 0, 0) 89%, rgba(158, 0, 0, 0) 100%);
}
.cg-board square.current-premove {
  background-color: rgba(20, 30, 85, 0.5);
}
.cg-board-wrap piece {
  position: absolute;
  top: 0;
  left: 0;
  width: 12.5%;
  height: 12.5%;
  background-size: cover;
  z-index: 2;
  will-change: transform;
  pointer-events: none;
}
.cg-board piece.dragging {
  cursor: move;
  z-index: 9;
}
.cg-board piece.anim {
  z-index: 8;
}
.cg-board piece.fading {
  z-index: 1;
  opacity: 0.5;
}
.cg-board-wrap square.move-dest:hover {
  background-color: rgba(20, 85, 30, 0.3);
}
.cg-board-wrap piece.ghost {
  opacity: 0.3;
}
.cg-board-wrap svg {
  overflow: hidden;
  position: relative;
  top: 0px;
  left: 0px;
  width: 100%;
  height: 100%;
  pointer-events: none;
  z-index: 2;
  opacity: 0.6;
}
.cg-board-wrap svg image {
  opacity: 0.5;
}
.cg-board-wrap coords {
  position: absolute;
  display: flex;
  pointer-events: none;
  opacity: 0.8;
  font-size: 9px;
}
.cg-board-wrap coords.ranks {
  right: -15px;
  top: 0;
  flex-flow: column-reverse;
  height: 100%;
  width: 12px;
}
.cg-board-wrap coords.ranks.black {
  flex-flow: column;
}
.cg-board-wrap coords.files {
  bottom: -16px;
  left: 0;
  flex-flow: row;
  width: 100%;
  height: 16px;
  text-transform: uppercase;
  text-align: center;
}
.cg-board-wrap coords.files.black {
  flex-flow: row-reverse;
}
.cg-board-wrap coords coord {
  flex: 1 1 auto;
}
.cg-board-wrap coords.ranks coord {
  transform: translateY(39%);
}

/*
 * Board
 */
";

/// What stands for a character inside a data URL: `#`, `<`, `>`, `?` and the
/// line feed are written as `%` and their code in hexadecimal, every other
/// character as itself.
pub open spec fn escape_of(c: char) -> Seq<char> {
    if c == '#' {
        seq!['%', '2', '3']
    } else if c == '<' {
        seq!['%', '3', 'C']
    } else if c == '>' {
        seq!['%', '3', 'E']
    } else if c == '?' {
        seq!['%', '3', 'F']
    } else if c == '\n' {
        seq!['%', '0', 'A']
    } else {
        seq![c]
    }
}

/// A text with each of its characters written as it stands inside a data
/// URL.
pub open spec fn url_encoded(s: Seq<char>) -> Seq<char>
    decreases s.len(),
{
    if s.len() == 0 {
        Seq::empty()
    } else {
        url_encoded(s.drop_last()) + escape_of(s.last())
    }
}

/// The rule that gives the elements of `selector` the image as background.
pub open spec fn image_rule(selector: Seq<char>, image: Seq<char>) -> Seq<char> {
    selector + " {\n  background-image: url('data:image/svg+xml,"@ + url_encoded(image)
        + "');\n}\n"@
}

/// The whole stylesheet: the fixed rules, the rule for the board, an empty
/// line, and a rule for each piece, White's before Black's.
pub open spec fn style_sheet(assets: &Assets) -> Seq<char> {
    BASE_STYLE@ + image_rule(".blue .cg-board-wrap"@, assets.board@) + "\n"@
        + image_rule(".merida .cg-board-wrap piece.pawn.white"@, assets.white_pawn@)
        + image_rule(".merida .cg-board-wrap piece.bishop.white"@, assets.white_bishop@)
        + image_rule(".merida .cg-board-wrap piece.knight.white"@, assets.white_knight@)
        + image_rule(".merida .cg-board-wrap piece.rook.white"@, assets.white_rook@)
        + image_rule(".merida .cg-board-wrap piece.queen.white"@, assets.white_queen@)
        + image_rule(".merida .cg-board-wrap piece.king.white"@, assets.white_king@)
        + image_rule(".merida .cg-board-wrap piece.pawn.black"@, assets.black_pawn@)
        + image_rule(".merida .cg-board-wrap piece.bishop.black"@, assets.black_bishop@)
        + image_rule(".merida .cg-board-wrap piece.knight.black"@, assets.black_knight@)
        + image_rule(".merida .cg-board-wrap piece.rook.black"@, assets.black_rook@)
        + image_rule(".merida .cg-board-wrap piece.queen.black"@, assets.black_queen@)
        + image_rule(".merida .cg-board-wrap piece.king.black"@, assets.black_king@)
}

/// Writes a text so that it can stand inside a data URL.
pub fn urlenc(s: &str) -> (r: String)
    ensures
        r@ == url_encoded(s@),
{
    let mut out = String::new();
    for c in it: s.chars()
        invariant
            it.seq() == s@,
            out@ == url_encoded(s@.take(it.index() as int)),
    {
        assert(s@.take(it.index() + 1).drop_last() == s@.take(it.index() as int));
        if c == '#' {
            out.push('%');
            out.push('2');
            out.push('3');
        } else if c == '<' {
            out.push('%');
            out.push('3');
            out.push('C');
        } else if c == '>' {
            out.push('%');
            out.push('3');
            out.push('E');
        } else if c == '?' {
            out.push('%');
            out.push('3');
            out.push('F');
        } else if c == '\n' {
            out.push('%');
            out.push('0');
            out.push('A');
        } else {
            out.push(c);
        }
        assert(out@ =~= url_encoded(s@.take(it.index() as int)) + escape_of(c));
    }
    assert(s@.take(s@.len() as int) == s@);
    out
}

/// Appends to `out` the rule that gives the elements of `selector` the
/// image as background.
fn push_image_rule(out: &mut String, selector: &str, image: &str)
    ensures
        final(out)@ == old(out)@ + image_rule(selector@, image@),
{
    let encoded = urlenc(image);
    out.append(selector);
    out.append(" {\n  background-image: url('data:image/svg+xml,");
    out.append(encoded.as_str());
    out.append("');\n}\n");
    assert(out@ =~= old(out)@ + image_rule(selector@, image@));
}

/// The script that draws the board.
pub fn chessground(assets: &Assets) -> (r: &str)
    ensures
        r@ == assets.chessground@,
{
    assets.chessground.as_str()
}

/// The script that draws arrows on the board.
pub fn arrows(assets: &Assets) -> (r: &str)
    ensures
        r@ == assets.arrows@,
{
    assets.arrows.as_str()
}

/// The stylesheet of a report page, with the images embedded.
pub fn style(assets: &Assets) -> (r: String)
    ensures
        r@ == style_sheet(assets),
{
    let mut out = String::from_str(BASE_STYLE);
    push_image_rule(&mut out, ".blue .cg-board-wrap", assets.board.as_str());
    out.append("\n");
    push_image_rule(&mut out, ".merida .cg-board-wrap piece.pawn.white", assets.white_pawn.as_str());
    push_image_rule(&mut out, ".merida .cg-board-wrap piece.bishop.white", assets.white_bishop.as_str());
    push_image_rule(&mut out, ".merida .cg-board-wrap piece.knight.white", assets.white_knight.as_str());
    push_image_rule(&mut out, ".merida .cg-board-wrap piece.rook.white", assets.white_rook.as_str());
    push_image_rule(&mut out, ".merida .cg-board-wrap piece.queen.white", assets.white_queen.as_str());
    push_image_rule(&mut out, ".merida .cg-board-wrap piece.king.white", assets.white_king.as_str());
    push_image_rule(&mut out, ".merida .cg-board-wrap piece.pawn.black", assets.black_pawn.as_str());
    push_image_rule(&mut out, ".merida .cg-board-wrap piece.bishop.black", assets.black_bishop.as_str());
    push_image_rule(&mut out, ".merida .cg-board-wrap piece.knight.black", assets.black_knight.as_str());
    push_image_rule(&mut out, ".merida .cg-board-wrap piece.rook.black", assets.black_rook.as_str());
    push_image_rule(&mut out, ".merida .cg-board-wrap piece.queen.black", assets.black_queen.as_str());
    push_image_rule(&mut out, ".merida .cg-board-wrap piece.king.black", assets.black_king.as_str());
    assert(out@ =~= style_sheet(assets));
    out
}

} // verus!
