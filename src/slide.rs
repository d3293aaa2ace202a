use vstd::prelude::*;

use crate::elements::{elements_view, Element, ElementModel};

verus! {

/// One screen of content.
#[derive(Clone, Debug, PartialEq, Eq)]
pub struct Slide {
    pub elements: Vec<Element>,
}

impl View for Slide {
    type V = Seq<ElementModel>;

    open spec fn view(&self) -> Seq<ElementModel> {
        elements_view(self.elements@)
    }
}

impl Slide {
    pub fn new(elements: Vec<Element>) -> (r: Self)
        ensures
            r.elements@ == elements@,
            r@ == elements_view(elements@),
    {
        Slide { elements }
    }
}

pub open spec fn slides_view(slides: Seq<Slide>) -> Seq<Seq<ElementModel>> {
    slides.map_values(|s: Slide| s@)
}

} // verus!
