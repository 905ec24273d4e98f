//! The texts of the guided tour, in English and German.
use vstd::prelude::*;

verus! {

pub const LABEL_VIEW_POINT: &'static str = "Top View";

pub const LABEL_VIEW_POINT_GERMAN: &'static str = "Draufsicht";

pub const LABEL_HYPER: &'static str = "__Hyper";

pub const LABEL_HYPER_GERMAN: &'static str = "__Hyper";

pub const LABEL_PROJECTION: &'static str = "Projection";

pub const LABEL_PROJECTION_GERMAN: &'static str = "Projektion";

pub const LABEL_SYNC_DRAG: &'static str = "Synchronized Dragging";

pub const LABEL_SYNC_DRAG_GERMAN: &'static str = "Synchrones Drehen";

pub const LABEL_CONTINUOUS_ROTATION: &'static str = "Continuous Rotation";

pub const LABEL_CONTINUOUS_ROTATION_GERMAN: &'static str = "Kontinuierliche Rotation";

pub const LABEL_HIGHER_DIMENSION_OFFSET: &'static str = "Higher Dimension Offset";

pub const LABEL_HIGHER_DIMENSION_OFFSET_GERMAN: &'static str = "Offset der höheren Dimension";

pub const LABEL_FLATLAND: &'static str = "Flatland";

pub const LABEL_FLATLAND_GERMAN: &'static str = "Flachland";

pub const LABEL_SHOW_MORE: &'static str = "Show more";

pub const LABEL_SHOW_MORE_GERMAN: &'static str = "Mehr anzeigen";

pub const LABEL_LANGUAGE: &'static str = "Deutsch/English";

pub const LABEL_LANGUAGE_GERMAN: &'static str = "English/Deutsch";

pub const INSTRUCTIONS_INITIAL: &'static str = r#"What would our three-dimensional world look like from a location in the fourth dimension? Let’s start with what inhabitants of a two-dimensional world see:
Look into the flatland gap below. Flatlanders can only see what happens between the red lines. Drag the objects... If you understand what they represent, try the gray controls at the top.
The 'Hyper' cone moves your location slowly into the third dimension and back. Wow, From 3D the Flatlanders can look into closed shapes!
If you feel familiar with the Flatlander's understanding of dimension jump, click 'Show more'."#;

pub const INSTRUCTIONS_INITIAL_GERMAN: &'static str = r#"Wie würde unsere dreidimensionale Welt von einem Ort in der vierten Dimension aussehen? Beginnen wir damit, was die Bewohner einer zweidimensionalen Welt sehen:
Schauen Sie in die Flachland-Spalte unten. Flachländer können nur sehen, was zwischen den roten Linien passiert. Drehen Sie die Objekte... Wenn Sie verstanden haben, was sie darstellen, probieren Sie alle grauen Steuerelemente oben aus.
Der 'Hyper'-Kegel bewegt Ihren Standort langsam in die dritte Dimension und zurück. Wow, von 3D aus können die Flachländer in geschlossene Formen schauen!
Wenn Sie sich mit dem Verständnis der Dimensionssprünge der Flachländer vertraut fühlen, klicken Sie auf 'Mehr anzeigen'."#;

pub const INSTRUCTIONS_FLATLAND_COMPLETE: &'static str = r#"Now we have also two 3D cubes extending into our 2D world.
Try to imagine how difficult it is for the inhabitants of Flatland to grasp their structure. Even if they could jump to the third dimension ('Hyper') it would be a challenge.
BTW: There are a few more options available. Try them all.
Surprised what happens when you combine 'Projection' and 'Hyper'? Add some 'Continuous Rotation' and 'Top View'. Now you will understand...
When you are ready to experience the 3D-to-4D effect, click 'Show more'."#;

pub const INSTRUCTIONS_FLATLAND_COMPLETE_GERMAN: &'static str = r#"Nun haben wir zwei 3D-Würfel, die in unsere 2D-Welt hineinragen.
Versuchen Sie sich vorzustellen, wie schwierig es für die Bewohner von Flachland ist, deren Struktur zu erfassen. Selbst wenn sie in die dritte Dimension springen könnten ('Hyper'), wäre es eine Herausforderung.
Übrigens: Es gibt nun noch ein paar weitere Einstellmöglichkeiten. Probieren Sie sie alle aus.
Überrascht, was passiert, wenn Sie 'Projektion' und 'Hyper' kombinieren? Fügen Sie etwas 'Kontinuierliche Rotation' und 'Draufsicht' hinzu... Jetzt werden Sie es verstehen.
Wenn Sie bereit sind, den 3D-zu-4D-Effekt zu erleben, klicken Sie auf 'Mehr anzeigen'."#;

pub const INSTRUCTIONS_THREE_DIMENSIONAL: &'static str = r#"Study how the two new 3D-Objects behave if we go up to a fourth dimension view point (Again: 'Hyper').
Are there are similarities to flatlander's experiences?

'Show more' will add two different 4D-cubes to the scene. It will become crazy ;-)"#;

pub const INSTRUCTIONS_THREE_DIMENSIONAL_GERMAN: &'static str = r#"Untersuchen Sie, wie sich die beiden neuen 3D-Objekte verhalten, wenn wir zu einem vierdimensionalen Standpunkt wechseln (nochmals: 'Hyper').
Gibt es Ähnlichkeiten zu den Erfahrungen der Flachländer?

'Mehr anzeigen' fügt der Szene zwei unterschiedliche 4D-Würfel hinzu. Es wird verrückt ;-)"#;

pub const INSTRUCTIONS_SPACELAND_COMPLETE: &'static str = r#"Take some time to compare Flatlander's and Spacelander's experiences with an extra dimension. The 'Higher Dimension Offset' slider and 'Synchronized Dragging' can help...
‘Projection’ pushes the atoms from the higher dimensions into the visible range. Note that actually we can never see 4D objects completely.  
'Show more' will display a complex scene, the construction of which now takes a bit longer..."#;

pub const INSTRUCTIONS_SPACELAND_COMPLETE_GERMAN: &'static str = r#"Nehmen Sie sich Zeit, um die Erfahrungen der Flachländer und Raumländer mit einer zusätzlichen Dimension zu vergleichen. Der 'Offset der höheren Dimension' Schieber und 'Synchrones Drehen' können helfen...
‘Projektion’ schiebt die Atome aus den höheren Dimensionen in den sichtbaren Bereich. Beachten Sie, dass wir eigentlich 4D-Objekte niemals vollständig sehen können.  
'Mehr anzeigen' zeigt eine komplexe Szene, deren Aufbau nun etwas länger dauert..."#;

pub const INSTRUCTIONS_SPACELAND_ONLY: &'static str = r#"Try all Transformations.
Can you figure out what are 
the two segrets of the cube?

The end of the demo is reached.
Thank you for your attention!"#;

pub const INSTRUCTIONS_SPACELAND_ONLY_GERMAN: &'static str = r#"Probieren Sie alle Transformationen aus.
Können Sie herausfinden, 
was die beiden Geheimnisse des Würfels sind?

Das Ende der Demo ist erreicht.
Vielen Dank!"#;
pub const LABEL_MISSING_GERMAN: &'static str = "german localisation missing";

} // verus!
