//! The package LICENSE generator.

use vstd::prelude::*;
use vstd::string::*;
use crate::strutil::{int_str, push_i32};

verus! {

/// The MIT license template text before the copyright year.
pub open spec fn mit_head() -> Seq<char> {
    "MIT License\n\nCopyright (c) "@
}

/// The MIT license template text after the author name.
pub open spec fn mit_tail() -> Seq<char> {
    "\n\nPermission is hereby granted, free of charge, to any person obtaining a copy\nof this software and associated documentation files (the \"Software\"), to deal\nin the Software without restriction, including without limitation the rights\nto use, copy, modify, merge, publish, distribute, sublicense, and/or sell\ncopies of the Software, and to permit persons to whom the Software is\nfurnished to do so, subject to the following conditions:\n\nThe above copyright notice and this permission notice shall be included in all\ncopies or substantial portions of the Software.\n\nTHE SOFTWARE IS PROVIDED \"AS IS\", WITHOUT WARRANTY OF ANY KIND, EXPRESS OR\nIMPLIED, INCLUDING BUT NOT LIMITED TO THE WARRANTIES OF MERCHANTABILITY,\nFITNESS FOR A PARTICULAR PURPOSE AND NONINFRINGEMENT. IN NO EVENT SHALL THE\nAUTHORS OR COPYRIGHT HOLDERS BE LIABLE FOR ANY CLAIM, DAMAGES OR OTHER\nLIABILITY, WHETHER IN AN ACTION OF CONTRACT, TORT OR OTHERWISE, ARISING FROM,\nOUT OF OR IN CONNECTION WITH THE SOFTWARE OR THE USE OR OTHER DEALINGS IN THE\nSOFTWARE.\""@
}

/// The completed MIT license text: the template with the year and the
/// author substituted in.
pub open spec fn mit_text(author: Seq<char>, year: int) -> Seq<char> {
    mit_head() + int_str(year) + " "@ + author + mit_tail()
}

/// Relies on `chrono::Utc::now` and `chrono::Datelike::year` for the
/// current calendar year; the result depends on the clock, so nothing is
/// stated of its value.
#[verifier::external_body]
fn current_year() -> (y: i32) {
    chrono::Datelike::year(&chrono::Utc::now())
}

/// The package LICENSE generator.
#[derive(Debug, Clone)]
pub struct License {
    value: String,
}

impl View for License {
    type V = Seq<char>;

    closed spec fn view(&self) -> Seq<char> {
        self.value@
    }
}

impl License {
    /// Creates a new MIT license for `author` with the given copyright year.
    pub fn mit_in_year(author: &str, year: i32) -> (r: Self)
        ensures
            r@ == mit_text(author@, year as int),
    {
        let mut value = String::from_str("MIT License\n\nCopyright (c) ");
        push_i32(&mut value, year);
        value.append(" ");
        value.append(author);
        value.append(
            "\n\nPermission is hereby granted, free of charge, to any person obtaining a copy\nof this software and associated documentation files (the \"Software\"), to deal\nin the Software without restriction, including without limitation the rights\nto use, copy, modify, merge, publish, distribute, sublicense, and/or sell\ncopies of the Software, and to permit persons to whom the Software is\nfurnished to do so, subject to the following conditions:\n\nThe above copyright notice and this permission notice shall be included in all\ncopies or substantial portions of the Software.\n\nTHE SOFTWARE IS PROVIDED \"AS IS\", WITHOUT WARRANTY OF ANY KIND, EXPRESS OR\nIMPLIED, INCLUDING BUT NOT LIMITED TO THE WARRANTIES OF MERCHANTABILITY,\nFITNESS FOR A PARTICULAR PURPOSE AND NONINFRINGEMENT. IN NO EVENT SHALL THE\nAUTHORS OR COPYRIGHT HOLDERS BE LIABLE FOR ANY CLAIM, DAMAGES OR OTHER\nLIABILITY, WHETHER IN AN ACTION OF CONTRACT, TORT OR OTHERWISE, ARISING FROM,\nOUT OF OR IN CONNECTION WITH THE SOFTWARE OR THE USE OR OTHER DEALINGS IN THE\nSOFTWARE.\"",
        );
        License { value }
    }

    /// Creates a new MIT license for `author`, dated with the current year.
    /// * author - the package author full name
    pub fn mit(author: &str) -> (r: Self)
        ensures
            exists|y: i32| r@ == mit_text(author@, y as int),
    {
        let year = current_year();
        let r = License::mit_in_year(author, year);
        proof {
            assert(r@ == mit_text(author@, year as int));
        }
        r
    }

    /// The license text, as it is written to the LICENSE file.
    pub fn text(&self) -> (r: &str)
        ensures
            r@ == self@,
    {
        self.value.as_str()
    }
}

} // verus!
